use vstd::prelude::*;
use vstd::string::*;

verus! {

/// Knobs of the record iterator and the output adapters.
#[derive(Debug, Clone)]
pub struct ParserSettings {
    /// Chunk parallelism: 0 lets the caller pick, 1 is single-threaded.
    /// The parsing itself never reads this field; only a driver that
    /// dispatches chunks to workers does.
    pub num_threads: u32,
    /// When set, CRC mismatches surface as soft errors; when clear they
    /// are ignored.
    pub validate_checksums: bool,
    /// JSON attribute placement: a sibling `<name>_attributes` object
    /// instead of merging attributes into the element's object.
    pub separate_json_attributes: bool,
    /// Pretty-printing for the XML output.
    pub indent: bool,
    /// The codec name for `AnsiString` values, kept for configuration
    /// fidelity.  This library always decodes Windows-1252, the default:
    /// setting another name here changes nothing.
    pub ansi_codec: String,
}

impl ParserSettings {
    pub fn new() -> (r: Self)
        ensures
            r.num_threads == 0,
            r.validate_checksums == true,
            r.separate_json_attributes == false,
            r.indent == false,
    {
        ParserSettings {
            num_threads: 0,
            validate_checksums: true,
            separate_json_attributes: false,
            indent: false,
            ansi_codec: String::from_str("windows-1252"),
        }
    }

    pub fn num_threads(self, n: u32) -> (r: Self)
        ensures
            r == (ParserSettings { num_threads: n, ..self }),
    {
        ParserSettings { num_threads: n, ..self }
    }

    pub fn validate_checksums(self, b: bool) -> (r: Self)
        ensures
            r == (ParserSettings { validate_checksums: b, ..self }),
    {
        ParserSettings { validate_checksums: b, ..self }
    }

    pub fn separate_json_attributes(self, b: bool) -> (r: Self)
        ensures
            r == (ParserSettings { separate_json_attributes: b, ..self }),
    {
        ParserSettings { separate_json_attributes: b, ..self }
    }

    pub fn indent(self, b: bool) -> (r: Self)
        ensures
            r == (ParserSettings { indent: b, ..self }),
    {
        ParserSettings { indent: b, ..self }
    }

    pub fn should_indent(&self) -> (r: bool)
        ensures
            r == self.indent,
    {
        self.indent
    }

    pub fn should_validate_checksums(&self) -> (r: bool)
        ensures
            r == self.validate_checksums,
    {
        self.validate_checksums
    }

    pub fn should_separate_json_attributes(&self) -> (r: bool)
        ensures
            r == self.separate_json_attributes,
    {
        self.separate_json_attributes
    }
}

impl Default for ParserSettings {
    fn default() -> (r: Self)
        ensures
            r.num_threads == 0,
            r.validate_checksums == true,
            r.separate_json_attributes == false,
            r.indent == false,
    {
        ParserSettings::new()
    }
}

} // verus!
