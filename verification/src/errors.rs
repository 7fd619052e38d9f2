//! Error kinds of the conversion pipeline.

use vstd::prelude::*;
use vstd::string::*;

verus! {

/// Errors from the vendor data source and its decoding.
#[derive(Debug, Clone)]
pub enum EasyedaError {
    /// Transport failure or non-2xx response, with a human message.
    ApiRequest(String),
    /// The identifier does not look like a vendor part number.
    InvalidLcscId(String),
    /// The service answered, but knows no such component.
    ComponentNotFound(String),
    /// The response body is not the JSON shape the decoder expects.
    JsonParse(String),
    /// A required field is missing or malformed.
    InvalidData(String),
}

/// Errors from the KiCad emitters and the library files.
#[derive(Debug, Clone)]
pub enum KicadError {
    SymbolExport(String),
    FootprintExport(String),
    ModelExport(String),
    InvalidVersion,
    Io(String),
}

/// Errors from the coordinate and geometry conversions.
#[derive(Debug, Clone)]
pub enum ConversionError {
    InvalidCoordinate(String),
    InvalidUnit(String),
    /// The SVG path yielded no commands at all.
    SvgParse(String),
    /// Degenerate arc: coincident endpoints or a vanishing radius.
    ArcConversion(String),
}

/// The top-level error of the library.
#[derive(Debug, Clone)]
pub enum AppError {
    Easyeda(EasyedaError),
    Kicad(KicadError),
    Conversion(ConversionError),
    Other(String),
}

pub open spec fn easyeda_message_spec(e: EasyedaError) -> Seq<char> {
    match e {
        EasyedaError::ApiRequest(m) => "API request failed: "@ + m@,
        EasyedaError::InvalidLcscId(m) => "Invalid LCSC ID format: "@ + m@,
        EasyedaError::ComponentNotFound(m) => "Component not found: "@ + m@,
        EasyedaError::JsonParse(m) => "Failed to parse JSON response: "@ + m@,
        EasyedaError::InvalidData(m) => "Invalid component data: "@ + m@,
    }
}

pub open spec fn kicad_message_spec(e: KicadError) -> Seq<char> {
    match e {
        KicadError::SymbolExport(m) => "Failed to export symbol: "@ + m@,
        KicadError::FootprintExport(m) => "Failed to export footprint: "@ + m@,
        KicadError::ModelExport(m) => "Failed to export 3D model: "@ + m@,
        KicadError::InvalidVersion => "Invalid KiCad version"@,
        KicadError::Io(m) => "IO error: "@ + m@,
    }
}

pub open spec fn conversion_message_spec(e: ConversionError) -> Seq<char> {
    match e {
        ConversionError::InvalidCoordinate(m) => "Invalid coordinate: "@ + m@,
        ConversionError::InvalidUnit(m) => "Invalid unit conversion: "@ + m@,
        ConversionError::SvgParse(m) => "SVG path parse error: "@ + m@,
        ConversionError::ArcConversion(m) => "Arc conversion failed: "@ + m@,
    }
}

pub open spec fn app_message_spec(e: AppError) -> Seq<char> {
    match e {
        AppError::Easyeda(inner) => easyeda_message_spec(inner),
        AppError::Kicad(inner) => kicad_message_spec(inner),
        AppError::Conversion(inner) => conversion_message_spec(inner),
        AppError::Other(m) => m@,
    }
}

impl EasyedaError {
    /// A human-readable description.
    pub fn message(&self) -> (r: String)
        ensures
            r@ == easyeda_message_spec(*self),
    {
        let mut out = String::new();
        match self {
            EasyedaError::ApiRequest(m) => {
                out.append("API request failed: ");
                out.append(m.as_str());
            },
            EasyedaError::InvalidLcscId(m) => {
                out.append("Invalid LCSC ID format: ");
                out.append(m.as_str());
            },
            EasyedaError::ComponentNotFound(m) => {
                out.append("Component not found: ");
                out.append(m.as_str());
            },
            EasyedaError::JsonParse(m) => {
                out.append("Failed to parse JSON response: ");
                out.append(m.as_str());
            },
            EasyedaError::InvalidData(m) => {
                out.append("Invalid component data: ");
                out.append(m.as_str());
            },
        }
        proof {
            assert(out@ =~= easyeda_message_spec(*self));
        }
        out
    }
}

impl KicadError {
    /// A human-readable description.
    pub fn message(&self) -> (r: String)
        ensures
            r@ == kicad_message_spec(*self),
    {
        let mut out = String::new();
        match self {
            KicadError::SymbolExport(m) => {
                out.append("Failed to export symbol: ");
                out.append(m.as_str());
            },
            KicadError::FootprintExport(m) => {
                out.append("Failed to export footprint: ");
                out.append(m.as_str());
            },
            KicadError::ModelExport(m) => {
                out.append("Failed to export 3D model: ");
                out.append(m.as_str());
            },
            KicadError::InvalidVersion => {
                out.append("Invalid KiCad version");
            },
            KicadError::Io(m) => {
                out.append("IO error: ");
                out.append(m.as_str());
            },
        }
        proof {
            assert(out@ =~= kicad_message_spec(*self));
        }
        out
    }
}

impl ConversionError {
    /// A human-readable description.
    pub fn message(&self) -> (r: String)
        ensures
            r@ == conversion_message_spec(*self),
    {
        let mut out = String::new();
        match self {
            ConversionError::InvalidCoordinate(m) => {
                out.append("Invalid coordinate: ");
                out.append(m.as_str());
            },
            ConversionError::InvalidUnit(m) => {
                out.append("Invalid unit conversion: ");
                out.append(m.as_str());
            },
            ConversionError::SvgParse(m) => {
                out.append("SVG path parse error: ");
                out.append(m.as_str());
            },
            ConversionError::ArcConversion(m) => {
                out.append("Arc conversion failed: ");
                out.append(m.as_str());
            },
        }
        proof {
            assert(out@ =~= conversion_message_spec(*self));
        }
        out
    }
}

impl AppError {
    /// A human-readable description.
    pub fn message(&self) -> (r: String)
        ensures
            r@ == app_message_spec(*self),
    {
        match self {
            AppError::Easyeda(inner) => inner.message(),
            AppError::Kicad(inner) => inner.message(),
            AppError::Conversion(inner) => inner.message(),
            AppError::Other(m) => {
                let mut out = String::new();
                out.append(m.as_str());
                proof {
                    assert(out@ =~= m@);
                }
                out
            },
        }
    }
}

} // verus!
