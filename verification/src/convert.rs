use vstd::prelude::*;

use base64::Engine;

use crate::config::{
    cm_view, duplicate_entries, map_set, spec_set, ConfigData, ConfigEntry, ConfigValue,
};
use crate::document::{spec_merged_config, Document, FormatKind};
use crate::text::str_eq;
use vstd::utf8::{decode_utf8, valid_utf8};

verus! {

/// Why a conversion failed.
#[derive(Debug)]
pub enum ConvertError {
    /// Native rendering was requested but the document has no native-markup
    /// sub-configuration.
    NativeConfigMissing,
    /// The external converter exited with a non-zero status; carries its
    /// captured standard error.
    ConverterProcess(String),
    /// Subprocess output was not valid text where text was expected.
    Encoding,
}

/// What one run of an external process produced: whether it exited with
/// status zero, its standard output, and its captured standard error.
#[derive(Debug)]
pub struct ProcessOutcome {
    pub success: bool,
    pub stdout: Vec<u8>,
    pub stderr: String,
}

/// The conversion path decided for a document and a target format.
#[derive(Debug)]
pub enum ConversionRequest {
    /// Render the document's own markup file (relative to its base directory)
    /// in-process: the native path to HTML.
    Native { markup_path: String },
    /// One run of the external converter with the merged configuration,
    /// asking for the target format.
    Direct { config: Vec<ConfigEntry>, target: String },
    /// The two-hop fallback: render the markup in-process to HTML, write that
    /// HTML to a temporary file, then run the external converter over it
    /// (see `second_hop_config`) asking for the target format.
    TwoHop { markup_path: String, config: Vec<ConfigEntry>, target: String },
}

impl Document {
    /// Decide the conversion path for a target format. A document of the
    /// external-converter kind is always converted directly; a native-markup
    /// document is rendered in-process for HTML and reaches any other format
    /// only through the two-hop fallback, and only if it has a native-markup
    /// sub-configuration.
    pub fn convert(&self, format: &str) -> (r: Result<ConversionRequest, ConvertError>)
        ensures
            match r {
                Ok(req) => match req {
                    ConversionRequest::Native { markup_path } => {
                        &&& self.format == FormatKind::CommonMark
                        &&& format@ == "html"@
                        &&& self.commonmark is Some
                        &&& markup_path@ == self.commonmark->0.path@
                    },
                    ConversionRequest::Direct { config, target } => {
                        &&& self.format == FormatKind::Pandoc
                        &&& cm_view(config@) == spec_merged_config(*self)
                        &&& target@ == format@
                    },
                    ConversionRequest::TwoHop { markup_path, config, target } => {
                        &&& self.format == FormatKind::CommonMark
                        &&& format@ != "html"@
                        &&& self.commonmark is Some
                        &&& markup_path@ == self.commonmark->0.path@
                        &&& cm_view(config@) == spec_merged_config(*self)
                        &&& target@ == format@
                    },
                },
                Err(ConvertError::NativeConfigMissing) => self.format == FormatKind::CommonMark
                    && self.commonmark is None,
                Err(_) => false,
            },
    {
        match self.format {
            FormatKind::Pandoc => Ok(
                ConversionRequest::Direct {
                    config: self.make_pandoc_config(),
                    target: format.to_owned(),
                },
            ),
            FormatKind::CommonMark => {
                let markup_path = match &self.commonmark {
                    Some(c) => c.path.clone(),
                    None => {
                        return Err(ConvertError::NativeConfigMissing);
                    },
                };
                if str_eq(format, "html") {
                    Ok(ConversionRequest::Native { markup_path })
                } else {
                    Ok(
                        ConversionRequest::TwoHop {
                            markup_path,
                            config: self.make_pandoc_config(),
                            target: format.to_owned(),
                        },
                    )
                }
            },
        }
    }

    /// The rendering path for HTML: the native renderer for native markup,
    /// one direct converter run otherwise; never the two-hop fallback.
    pub fn html(&self) -> (r: Result<ConversionRequest, ConvertError>)
        ensures
            match r {
                Ok(req) => !(req is TwoHop) && match req {
                    ConversionRequest::Native { markup_path } => {
                        &&& self.format == FormatKind::CommonMark
                        &&& self.commonmark is Some
                        &&& markup_path@ == self.commonmark->0.path@
                    },
                    ConversionRequest::Direct { config, target } => {
                        &&& self.format == FormatKind::Pandoc
                        &&& cm_view(config@) == spec_merged_config(*self)
                        &&& target@ == "html"@
                    },
                    ConversionRequest::TwoHop { .. } => false,
                },
                Err(ConvertError::NativeConfigMissing) => self.format == FormatKind::CommonMark
                    && self.commonmark is None,
                Err(_) => false,
            },
    {
        self.convert("html")
    }
}

/// Law: the dispatch is the only road. A native-markup document converted to
/// a format other than HTML goes through the two-hop fallback, whenever the
/// dispatch succeeds at all.
pub proof fn lemma_native_non_html_takes_fallback(
    d: Document,
    format: &str,
    r: Result<ConversionRequest, ConvertError>,
)
    requires
        call_ensures(Document::convert, (&d, format), r),
        d.format == FormatKind::CommonMark,
        format@ != "html"@,
        r is Ok,
    ensures
        r->Ok_0 is TwoHop,
{
}

/// Law: an HTML request never takes the fallback's second hop.
pub proof fn lemma_html_never_two_hop(
    d: Document,
    format: &str,
    r: Result<ConversionRequest, ConvertError>,
)
    requires
        call_ensures(Document::convert, (&d, format), r),
        format@ == "html"@,
        r is Ok,
    ensures
        !(r->Ok_0 is TwoHop),
{
}

/// The configuration for the fallback's second hop: the merged configuration
/// with the source format forced to `html` and the rendered HTML file (the
/// temporary file the caller wrote) as the input.
pub fn second_hop_config(config: &Vec<ConfigEntry>, html_path: &str) -> (r: Vec<ConfigEntry>)
    ensures
        cm_view(r@) == spec_set(
            spec_set(cm_view(config@), "from"@, ConfigData::Str("html"@)),
            "input-file"@,
            ConfigData::Str(html_path@),
        ),
{
    let mut out = duplicate_entries(config);
    map_set(&mut out, String::from_str("from"), ConfigValue::Str(String::from_str("html")));
    map_set(&mut out, String::from_str("input-file"), ConfigValue::Str(html_path.to_owned()));
    out
}

/// What `to_base64` returns on given bytes: the result depends on the bytes
/// alone.
pub uninterp spec fn base64_of(b: Seq<u8>) -> Seq<char>;

/// Relies on base64's standard-alphabet engine with padding: encoding is a
/// pure function of the bytes.
#[verifier::external_body]
fn to_base64(b: &Vec<u8>) -> (r: String)
    ensures
        r@ == base64_of(b@),
{
    base64::engine::general_purpose::STANDARD.encode(b.as_slice())
}

/// Relies on `String::from_utf8`: returns the decoded string exactly when
/// the bytes are valid UTF-8, and refuses them otherwise.
#[verifier::external_body]
pub(crate) fn utf8_string(bytes: Vec<u8>) -> (r: Option<String>)
    ensures
        r is Some <==> valid_utf8(bytes@),
        r matches Some(s) ==> s@ == decode_utf8(bytes@),
{
    match String::from_utf8(bytes) {
        Ok(s) => Some(s),
        Err(_) => None,
    }
}

/// The exit-status protocol of a converter run: the standard output on
/// success; a failure carrying the captured standard error otherwise.
pub fn process_output(out: ProcessOutcome) -> (r: Result<Vec<u8>, ConvertError>)
    ensures
        match r {
            Ok(bytes) => out.success && bytes == out.stdout,
            Err(e) => !out.success && e == ConvertError::ConverterProcess(out.stderr),
        },
{
    if out.success {
        Ok(out.stdout)
    } else {
        Err(ConvertError::ConverterProcess(out.stderr))
    }
}

/// Finish a conversion whose output is text (the HTML paths): the converter
/// must have succeeded and its output must be valid UTF-8.
pub fn finish_text_output(out: ProcessOutcome) -> (r: Result<String, ConvertError>)
    ensures
        match r {
            Ok(s) => out.success && valid_utf8(out.stdout@) && s@ == decode_utf8(out.stdout@),
            Err(ConvertError::ConverterProcess(stderr)) => !out.success && stderr == out.stderr,
            Err(ConvertError::Encoding) => out.success && !valid_utf8(out.stdout@),
            Err(ConvertError::NativeConfigMissing) => false,
        },
{
    match process_output(out) {
        Ok(bytes) => match utf8_string(bytes) {
            Some(s) => Ok(s),
            None => Err(ConvertError::Encoding),
        },
        Err(e) => Err(e),
    }
}

/// Finish a conversion whose output is binary: the raw bytes are encoded as
/// base64 for the API boundary.
pub fn finish_binary_output(out: ProcessOutcome) -> (r: Result<String, ConvertError>)
    ensures
        match r {
            Ok(s) => out.success && s@ == base64_of(out.stdout@),
            Err(e) => !out.success && e == ConvertError::ConverterProcess(out.stderr),
        },
{
    match process_output(out) {
        Ok(bytes) => Ok(to_base64(&bytes)),
        Err(e) => Err(e),
    }
}

} // verus!
