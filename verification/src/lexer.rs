//! The shape-stream lexer.
//!
//! A vendor shape record is a list of fields separated by `~`; a pin record
//! additionally consists of segments separated by `^^`.  Splitting is
//! specified through the joining function: the pieces returned by a split
//! are exactly those that, joined with the same separator, give the input
//! back.  The lexing round trip is therefore part of the split contracts.

use vstd::prelude::*;
use vstd::string::*;

verus! {

/// Pieces joined with a separator between consecutive pieces.
pub open spec fn join_sep(ps: Seq<Seq<char>>, sep: Seq<char>) -> Seq<char>
    decreases ps.len(),
{
    if ps.len() == 0 {
        Seq::<char>::empty()
    } else if ps.len() == 1 {
        ps[0]
    } else {
        join_sep(ps.drop_last(), sep) + sep + ps.last()
    }
}

proof fn lemma_join_snoc(ps: Seq<Seq<char>>, q: Seq<char>, sep: Seq<char>)
    requires
        ps.len() >= 1,
    ensures
        join_sep(ps.push(q), sep) == join_sep(ps, sep) + sep + q,
{
    assert(ps.push(q).drop_last() =~= ps);
    assert(ps.push(q).last() == q);
}

/// No occurrence of the character `sep` in any piece.
pub open spec fn pieces_free_of(ps: Seq<Seq<char>>, sep: char) -> bool {
    forall|k: int, j: int|
        0 <= k < ps.len() && 0 <= j < ps[k].len() ==> #[trigger] ps[k][j] != sep
}

/// Index of the first occurrence of `sep` in `s`, or `s.len()`.
pub open spec fn sep_pos(s: Seq<char>, sep: char) -> int
    decreases s.len(),
{
    if s.len() == 0 {
        0
    } else if s[0] == sep {
        0
    } else {
        1 + sep_pos(s.drop_first(), sep)
    }
}

pub proof fn lemma_sep_pos(s: Seq<char>, sep: char)
    ensures
        0 <= sep_pos(s, sep) <= s.len(),
        sep_pos(s, sep) < s.len() ==> s[sep_pos(s, sep)] == sep,
        forall|j: int| 0 <= j < sep_pos(s, sep) ==> s[j] != sep,
    decreases s.len(),
{
    if s.len() > 0 && s[0] != sep {
        lemma_sep_pos(s.drop_first(), sep);
        assert forall|j: int| 0 <= j < sep_pos(s, sep) implies s[j] != sep by {
            if j > 0 {
                assert(s.drop_first()[j - 1] == s[j]);
            }
        }
    }
}

/// The unique separator-free decomposition of `s`, splitting at the first
/// occurrence of `sep` each time.
pub open spec fn split_spec(s: Seq<char>, sep: char) -> Seq<Seq<char>>
    decreases s.len() via split_spec_decreases
{
    let p = sep_pos(s, sep);
    if p == s.len() {
        seq![s]
    } else {
        seq![s.take(p)] + split_spec(s.skip(p + 1), sep)
    }
}

#[via_fn]
proof fn split_spec_decreases(s: Seq<char>, sep: char) {
    lemma_sep_pos(s, sep);
}

/// Split on a single character.  The contract is the lexing round trip:
/// joining the pieces with the separator yields the input again, and no
/// piece contains the separator, which makes the decomposition unique.
pub fn split_fields(s: &str, sep: char) -> (r: Vec<String>)
    ensures
        r.len() >= 1,
        join_sep(r.deep_view(), seq![sep]) == s@,
        pieces_free_of(r.deep_view(), sep),
        r.deep_view() == split_spec(s@, sep),
{
    let n = s.unicode_len();
    let mut out: Vec<String> = Vec::new();
    let mut piece_start: usize = 0;
    let mut i: usize = 0;
    proof {
        assert(s@.skip(0) =~= s@);
        assert(out.deep_view() + split_spec(s@, sep) =~= split_spec(s@, sep));
    }
    while i < n
        invariant
            0 <= piece_start <= i <= n,
            n == s@.len(),
            out.len() >= 1 ==> join_sep(out.deep_view(), seq![sep]).push(sep)
                == s@.take(piece_start as int),
            out.len() == 0 ==> piece_start == 0,
            pieces_free_of(out.deep_view(), sep),
            forall|j: int| piece_start <= j < i ==> s@[j] != sep,
            split_spec(s@, sep) == out.deep_view() + split_spec(s@.skip(piece_start as int), sep),
        decreases n - i,
    {
        let c = s.get_char(i);
        if c == sep {
            let piece = s.substring_char(piece_start, i).to_owned();
            let ghost old_dvf = out.deep_view();
            let ghost old_ps = piece_start;
            proof {
                let ghost dv0 = out.deep_view();
                let ghost pv = s@.subrange(piece_start as int, i as int);
                if out.len() == 0 {
                    assert(join_sep(dv0.push(pv), seq![sep]) =~= pv);
                    assert(pv.push(sep) =~= s@.take(i + 1));
                } else {
                    lemma_join_snoc(dv0, pv, seq![sep]);
                    assert((join_sep(dv0, seq![sep]) + seq![sep] + pv).push(sep)
                        =~= s@.take(i + 1));
                }
            }
            out.push(piece);
            proof {
                let ghost pv = s@.subrange(old_ps as int, i as int);
                assert(out.deep_view() =~= old_dvf.push(pv));
                let ghost rest = s@.skip(old_ps as int);
                lemma_sep_pos(rest, sep);
                assert forall|j: int| 0 <= j < i - old_ps implies rest[j] != sep by {
                    assert(rest[j] == s@[old_ps + j]);
                }
                assert(rest[i - old_ps] == s@[i as int]);
                assert(sep_pos(rest, sep) == i - old_ps) by {
                    if sep_pos(rest, sep) < i - old_ps {
                        assert(rest[sep_pos(rest, sep)] == sep);
                    }
                    if sep_pos(rest, sep) > i - old_ps {
                        assert(rest[i - old_ps] != sep);
                    }
                }
                assert(rest.take(i - old_ps) =~= pv);
                assert(rest.skip(i - old_ps + 1) =~= s@.skip(i + 1));
                assert(split_spec(rest, sep)
                    == seq![pv] + split_spec(s@.skip(i + 1), sep));
                assert(out.deep_view() + split_spec(s@.skip(i + 1), sep)
                    =~= old_dvf + split_spec(rest, sep));
            }
            i = i + 1;
            piece_start = i;
        } else {
            i = i + 1;
        }
    }
    let piece = s.substring_char(piece_start, n).to_owned();
    proof {
        let ghost dv0 = out.deep_view();
        let ghost pv = s@.subrange(piece_start as int, n as int);
        if out.len() == 0 {
            assert(join_sep(dv0.push(pv), seq![sep]) =~= s@);
        } else {
            lemma_join_snoc(dv0, pv, seq![sep]);
            assert(join_sep(dv0, seq![sep]) + seq![sep] + pv
                =~= join_sep(dv0, seq![sep]).push(sep) + pv);
            assert(join_sep(dv0, seq![sep]).push(sep) + pv =~= s@);
        }
    }
    let ghost old_dvf2 = out.deep_view();
    out.push(piece);
    proof {
        let ghost pv = s@.subrange(piece_start as int, n as int);
        assert(out.deep_view() =~= old_dvf2.push(pv));
        let ghost rest = s@.skip(piece_start as int);
        lemma_sep_pos(rest, sep);
        assert forall|j: int| 0 <= j < rest.len() implies rest[j] != sep by {
            assert(rest[j] == s@[piece_start + j]);
        }
        assert(sep_pos(rest, sep) == rest.len()) by {
            if sep_pos(rest, sep) < rest.len() {
                assert(rest[sep_pos(rest, sep)] == sep);
            }
        }
        assert(rest =~= pv);
        assert(split_spec(rest, sep) == seq![pv]);
        assert(out.deep_view() =~= old_dvf2 + seq![pv]);
    }
    out
}

/// Join with a string separator; the exact inverse of `split_fields` when
/// the pieces are separator free.
pub fn join_fields(v: &Vec<String>, sep: &str) -> (r: String)
    ensures
        r@ == join_sep(v.deep_view(), sep@),
{
    let mut out = String::new();
    let mut k: usize = 0;
    while k < v.len()
        invariant
            0 <= k <= v.len(),
            k == 0 ==> out@ == Seq::<char>::empty(),
            k >= 1 ==> out@ == join_sep(v.deep_view().take(k as int), sep@),
        decreases v.len() - k,
    {
        if k > 0 {
            out.append(sep);
        }
        out.append(v[k].as_str());
        proof {
            let ghost dv = v.deep_view();
            assert(dv.take(k + 1).drop_last() =~= dv.take(k as int));
            assert(dv.take(k + 1).last() == dv[k as int]);
            if k == 0 {
                assert(join_sep(dv.take(1), sep@) == dv[0]);
                assert(out@ =~= dv[0]);
            }
        }
        k = k + 1;
    }
    proof {
        assert(v.deep_view().take(v.len() as int) =~= v.deep_view());
        if v.len() == 0 {
            assert(out@ =~= join_sep(v.deep_view(), sep@));
        }
    }
    out
}

/// Index of the first `^^` pair in `s`, or `s.len()` if there is none.
pub open spec fn pair_pos(s: Seq<char>) -> int
    decreases s.len(),
{
    if s.len() < 2 {
        s.len() as int
    } else if s[0] == '^' && s[1] == '^' {
        0
    } else {
        1 + pair_pos(s.drop_first())
    }
}

pub proof fn lemma_pair_pos(s: Seq<char>)
    ensures
        0 <= pair_pos(s) <= s.len(),
        pair_pos(s) < s.len() ==> pair_pos(s) + 1 < s.len()
            && s[pair_pos(s)] == '^' && s[pair_pos(s) + 1] == '^',
        forall|j: int| 0 <= j < pair_pos(s) && j + 1 < s.len()
            ==> !(#[trigger] s[j] == '^' && s[j + 1] == '^'),
    decreases s.len(),
{
    if s.len() >= 2 && !(s[0] == '^' && s[1] == '^') {
        lemma_pair_pos(s.drop_first());
        assert forall|j: int| 0 <= j < pair_pos(s) && j + 1 < s.len() implies
            !(#[trigger] s[j] == '^' && s[j + 1] == '^') by {
            if j > 0 {
                assert(s.drop_first()[j - 1] == s[j]);
                assert(s.drop_first()[j] == s[j + 1]);
            }
        }
    }
}

/// The unique decomposition of `s` at `^^` pairs, leftmost first.
pub open spec fn split2_spec(s: Seq<char>) -> Seq<Seq<char>>
    decreases s.len() via split2_spec_decreases
{
    let p = pair_pos(s);
    if p == s.len() {
        seq![s]
    } else {
        seq![s.take(p)] + split2_spec(s.skip(p + 2))
    }
}

#[via_fn]
proof fn split2_spec_decreases(s: Seq<char>) {
    lemma_pair_pos(s);
}

/// No piece contains the two-character separator `^^`, and only the last
/// piece may end in `^`; this makes the segment decomposition unique.
pub open spec fn segment_pieces_ok(ps: Seq<Seq<char>>) -> bool {
    &&& forall|k: int, j: int|
        0 <= k < ps.len() && 0 <= j && j + 1 < ps[k].len()
            ==> !(#[trigger] ps[k][j] == '^' && ps[k][j + 1] == '^')
    &&& forall|k: int|
        0 <= k < ps.len() - 1 && ps[k].len() > 0 ==> (#[trigger] ps[k]).last() != '^'
}

/// Split a pin record into its `^^`-separated segments.  Joining the
/// segments with `^^` restores the record.
pub fn split_segments(s: &str) -> (r: Vec<String>)
    ensures
        r.len() >= 1,
        join_sep(r.deep_view(), seq!['^', '^']) == s@,
        segment_pieces_ok(r.deep_view()),
        r.deep_view() == split2_spec(s@),
{
    let n = s.unicode_len();
    let mut out: Vec<String> = Vec::new();
    let mut piece_start: usize = 0;
    let mut i: usize = 0;
    proof {
        assert(s@.skip(0) =~= s@);
        assert(out.deep_view() + split2_spec(s@) =~= split2_spec(s@));
    }
    while i < n
        invariant
            0 <= piece_start <= i <= n,
            n == s@.len(),
            split2_spec(s@) == out.deep_view() + split2_spec(s@.skip(piece_start as int)),
            out.len() >= 1 ==> join_sep(out.deep_view(), seq!['^', '^']) + seq!['^', '^']
                == s@.take(piece_start as int),
            out.len() == 0 ==> piece_start == 0,
            forall|k: int, j: int|
                0 <= k < out.len() && 0 <= j && j + 1 < out.deep_view()[k].len()
                    ==> !(#[trigger] out.deep_view()[k][j] == '^'
                        && out.deep_view()[k][j + 1] == '^'),
            forall|k: int|
                0 <= k < out.len() && out.deep_view()[k].len() > 0
                    ==> (#[trigger] out.deep_view()[k]).last() != '^',
            i > piece_start && i < n ==> !(s@[i - 1] == '^' && s@[i as int] == '^'),
            forall|j: int| piece_start <= j < i - 1
                ==> !(#[trigger] s@[j] == '^' && s@[j + 1] == '^'),
        decreases n - i,
    {
        let c = s.get_char(i);
        if c == '^' && i + 1 < n && s.get_char(i + 1) == '^' {
            let piece = s.substring_char(piece_start, i).to_owned();
            let ghost old_dv = out.deep_view();
            proof {
                let ghost dv0 = out.deep_view();
                let ghost pv = s@.subrange(piece_start as int, i as int);
                if out.len() == 0 {
                    assert(join_sep(dv0.push(pv), seq!['^', '^']) =~= pv);
                    assert(pv + seq!['^', '^'] =~= s@.take(i + 2));
                } else {
                    lemma_join_snoc(dv0, pv, seq!['^', '^']);
                    assert(join_sep(dv0, seq!['^', '^']) + seq!['^', '^'] + pv + seq!['^', '^']
                        =~= s@.take(i + 2));
                }
                if pv.len() > 0 {
                    assert(pv.last() == s@[i - 1]);
                }
                assert forall|j: int| 0 <= j && j + 1 < pv.len() implies
                    !(#[trigger] pv[j] == '^' && pv[j + 1] == '^') by {
                    assert(pv[j] == s@[piece_start + j]);
                    assert(pv[j + 1] == s@[piece_start + j + 1]);
                }
            }
            out.push(piece);
            proof {
                let ghost pv = s@.subrange(piece_start as int, i as int);
                assert(out.deep_view() =~= old_dv.push(pv));
                assert forall|k: int, j: int|
                    0 <= k < out.len() && 0 <= j && j + 1 < out.deep_view()[k].len()
                        implies !(#[trigger] out.deep_view()[k][j] == '^'
                            && out.deep_view()[k][j + 1] == '^') by {
                    assert(out.deep_view()[k] == old_dv.push(pv)[k]);
                    if k < old_dv.len() {
                        assert(out.deep_view()[k] == old_dv[k]);
                        assert(!(old_dv[k][j] == '^' && old_dv[k][j + 1] == '^'));
                    } else {
                        assert(out.deep_view()[k] == pv);
                        assert(!(pv[j] == '^' && pv[j + 1] == '^'));
                    }
                }
                assert forall|k: int|
                    0 <= k < out.len() && out.deep_view()[k].len() > 0
                        implies (#[trigger] out.deep_view()[k]).last() != '^' by {
                    assert(old_dv.push(pv)[k] == if k < old_dv.len() { old_dv[k] } else { pv });
                    assert(out.deep_view()[k] == old_dv.push(pv)[k]);
                    if k == old_dv.len() && pv.len() > 0 {
                        assert(pv.last() == s@[i - 1]);
                    }
                }
            }
            proof {
                let ghost pv = s@.subrange(piece_start as int, i as int);
                let ghost rest = s@.skip(piece_start as int);
                lemma_pair_pos(rest);
                assert forall|j: int| 0 <= j < i - piece_start && j + 1 < rest.len() implies
                    !(#[trigger] rest[j] == '^' && rest[j + 1] == '^') by {
                    assert(rest[j] == s@[piece_start + j]);
                    assert(rest[j + 1] == s@[piece_start + j + 1]);
                    if j + 1 < i - piece_start {
                    } else {
                        assert(j == i - piece_start - 1);
                        assert(s@[i - 1] != '^' || s@[i as int] != '^');
                    }
                }
                assert(rest[i - piece_start] == s@[i as int]);
                assert(rest[i - piece_start + 1] == s@[i + 1]);
                assert(pair_pos(rest) == i - piece_start) by {
                    if pair_pos(rest) < i - piece_start {
                        assert(rest[pair_pos(rest)] == '^' && rest[pair_pos(rest) + 1] == '^');
                    }
                    if pair_pos(rest) > i - piece_start {
                        assert(!(rest[i - piece_start] == '^' && rest[i - piece_start + 1] == '^'));
                    }
                }
                assert(rest.take(i - piece_start) =~= pv);
                assert(rest.skip(i - piece_start + 2) =~= s@.skip(i + 2));
                assert(split2_spec(rest) == seq![pv] + split2_spec(s@.skip(i + 2)));
                assert(out.deep_view() + split2_spec(s@.skip(i + 2))
                    =~= old_dv + split2_spec(rest));
            }
            i = i + 2;
            piece_start = i;
        } else {
            i = i + 1;
        }
    }
    let piece = s.substring_char(piece_start, n).to_owned();
    proof {
        let ghost dv0 = out.deep_view();
        let ghost pv = s@.subrange(piece_start as int, n as int);
        if out.len() == 0 {
            assert(join_sep(dv0.push(pv), seq!['^', '^']) =~= s@);
        } else {
            lemma_join_snoc(dv0, pv, seq!['^', '^']);
            assert(join_sep(dv0, seq!['^', '^']) + seq!['^', '^'] + pv =~= s@);
        }
        assert forall|j: int| 0 <= j && j + 1 < pv.len() implies
            !(#[trigger] pv[j] == '^' && pv[j + 1] == '^') by {
            assert(pv[j] == s@[piece_start + j]);
            assert(pv[j + 1] == s@[piece_start + j + 1]);
        }
        let ghost rest = s@.skip(piece_start as int);
        lemma_pair_pos(rest);
        assert forall|j: int| 0 <= j < rest.len() - 1 implies
            !(#[trigger] rest[j] == '^' && rest[j + 1] == '^') by {
            assert(rest[j] == s@[piece_start + j]);
            assert(rest[j + 1] == s@[piece_start + j + 1]);
        }
        assert(pair_pos(rest) == rest.len()) by {
            if pair_pos(rest) < rest.len() {
                assert(rest[pair_pos(rest)] == '^' && rest[pair_pos(rest) + 1] == '^');
            }
        }
        assert(rest =~= pv);
        assert(split2_spec(rest) == seq![pv]);
    }
    let ghost old_dv2 = out.deep_view();
    let ghost pv2 = s@.subrange(piece_start as int, n as int);
    out.push(piece);
    proof {
        assert(out.deep_view() =~= old_dv2.push(pv2));
        assert forall|k: int, j: int|
            0 <= k < out.len() && 0 <= j && j + 1 < out.deep_view()[k].len()
                implies !(#[trigger] out.deep_view()[k][j] == '^'
                    && out.deep_view()[k][j + 1] == '^') by {
            assert(out.deep_view()[k] == old_dv2.push(pv2)[k]);
            if k < old_dv2.len() {
                assert(out.deep_view()[k] == old_dv2[k]);
                assert(!(old_dv2[k][j] == '^' && old_dv2[k][j + 1] == '^'));
            } else {
                assert(out.deep_view()[k] == pv2);
                assert(!(pv2[j] == '^' && pv2[j + 1] == '^'));
            }
        }
        assert forall|k: int|
            0 <= k < out.len() - 1 && out.deep_view()[k].len() > 0
                implies (#[trigger] out.deep_view()[k]).last() != '^' by {
            assert(old_dv2.push(pv2)[k] == old_dv2[k]);
            assert(out.deep_view()[k] == old_dv2.push(pv2)[k]);
        }
    }
    out
}


/// Splitting on runs of ASCII whitespace, from position `i` on: maximal
/// nonblank runs become the pieces, blanks are dropped.
pub open spec fn ws_split_from(s: Seq<char>, i: int) -> Seq<Seq<char>>
    decreases s.len() - i when 0 <= i <= s.len() via ws_split_decreases
{
    if i >= s.len() {
        Seq::<Seq<char>>::empty()
    } else if crate::svg::is_ws(s[i]) {
        ws_split_from(s, i + 1)
    } else {
        let e = crate::svg::run_end(s, i, |c: char| !crate::svg::is_ws(c));
        seq![s.subrange(i, e)] + ws_split_from(s, e)
    }
}

#[via_fn]
proof fn ws_split_decreases(s: Seq<char>, i: int) {
    if i < s.len() && !crate::svg::is_ws(s[i]) {
        crate::svg::lemma_run_end(s, i, |c: char| !crate::svg::is_ws(c));
    }
}

fn scan_nonws(s: &str, i: usize) -> (r: usize)
    requires
        i <= s@.len(),
    ensures
        r == crate::svg::run_end(s@, i as int, |c: char| !crate::svg::is_ws(c)),
        i <= r <= s@.len(),
{
    let n = s.unicode_len();
    let mut j = i;
    while j < n && !is_ws_char(s.get_char(j))
        invariant
            i <= j <= n,
            n == s@.len(),
            forall|k: int| i <= k < j ==> !crate::svg::is_ws(#[trigger] s@[k]),
        decreases n - j,
    {
        j = j + 1;
    }
    proof {
        crate::svg::lemma_run_end_unique(s@, i as int, j as int, |c: char| !crate::svg::is_ws(c));
    }
    j
}

fn is_ws_char(c: char) -> (r: bool)
    ensures
        r == crate::svg::is_ws(c),
{
    c == ' ' || c == '\t' || c == '\n' || c == '\r'
}

/// Split into whitespace-separated tokens; exactly `ws_split_from` at 0.
pub fn split_whitespace_tokens(s: &str) -> (r: Vec<String>)
    ensures
        r.deep_view() == ws_split_from(s@, 0),
{
    let n = s.unicode_len();
    let mut out: Vec<String> = Vec::new();
    let mut i: usize = 0;
    proof {
        assert(out.deep_view() + ws_split_from(s@, 0) =~= ws_split_from(s@, 0));
    }
    while i < n
        invariant
            0 <= i <= n,
            n == s@.len(),
            out.deep_view() + ws_split_from(s@, i as int) == ws_split_from(s@, 0),
        decreases n - i,
    {
        let c = s.get_char(i);
        if is_ws_char(c) {
            proof {
                assert(out.deep_view() + ws_split_from(s@, i + 1)
                    =~= out.deep_view() + ws_split_from(s@, i as int));
            }
            i = i + 1;
        } else {
            let e = scan_nonws(s, i);
            proof {
                crate::svg::lemma_run_end(s@, i as int, |ch: char| !crate::svg::is_ws(ch));
            }
            let piece = s.substring_char(i, e).to_owned();
            let ghost old_dv = out.deep_view();
            out.push(piece);
            proof {
                assert(out.deep_view() =~= old_dv.push(s@.subrange(i as int, e as int)));
                assert(ws_split_from(s@, i as int)
                    == seq![s@.subrange(i as int, e as int)] + ws_split_from(s@, e as int));
                assert(out.deep_view() + ws_split_from(s@, e as int)
                    =~= old_dv + ws_split_from(s@, i as int));
            }
            i = e;
        }
    }
    proof {
        assert(out.deep_view() + ws_split_from(s@, n as int) =~= out.deep_view());
    }
    out
}


/// Concatenation of a rendering over a sequence.
pub open spec fn cat_map<T>(items: Seq<T>, f: spec_fn(T) -> Seq<char>) -> Seq<char>
    decreases items.len(),
{
    if items.len() == 0 {
        Seq::<char>::empty()
    } else {
        cat_map(items.drop_last(), f) + f(items.last())
    }
}

/// One step of a left-to-right walk over `cat_map`.
pub proof fn lemma_cat_map_step<T>(items: Seq<T>, f: spec_fn(T) -> Seq<char>, i: int)
    requires
        0 <= i < items.len(),
    ensures
        cat_map(items.take(i + 1), f) == cat_map(items.take(i), f) + f(items[i]),
{
    assert(items.take(i + 1).drop_last() =~= items.take(i));
    assert(items.take(i + 1).last() == items[i]);
}

pub proof fn lemma_cat_map_full<T>(items: Seq<T>, f: spec_fn(T) -> Seq<char>)
    ensures
        cat_map(items.take(items.len() as int), f) == cat_map(items, f),
{
    assert(items.take(items.len() as int) =~= items);
}

} // verus!
