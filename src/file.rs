use vstd::prelude::*;
use vstd::utf8::*;


use crate::error::GrepError;
use crate::pattern::Pattern;
use crate::scan::{numbers_increase, records_rejoin, scan, scan_result, MatchRecord};

verus! {

#[verifier::external_type_specification]
#[verifier::external_body]
pub struct ExPathBuf(std::path::PathBuf);

/// Relies on `String::from_utf8`: it succeeds exactly on valid UTF-8, and the
/// string then holds those bytes.
#[verifier::external_body]
fn utf8_text(bytes: Vec<u8>) -> (r: Option<String>)
    ensures
        r is Some <==> valid_utf8(bytes@),
        r matches Some(s) ==> encode_utf8(s@) == bytes@,
{
    String::from_utf8(bytes).ok()
}

/// One file under inspection: where it is, the name shown for it, its text
/// and the records of the last search in that text.
pub struct FileGrep {
    value: String,
    path: std::path::PathBuf,
    file_name: String,
    result: Vec<MatchRecord>,
}

impl FileGrep {
    /// The file's text.
    pub closed spec fn text(&self) -> Seq<char> {
        self.value@
    }

    /// The name shown for the file.
    pub closed spec fn name(&self) -> Seq<char> {
        self.file_name@
    }

    /// Where the file is.
    pub closed spec fn location(&self) -> std::path::PathBuf {
        self.path
    }

    /// The records of the last search.
    pub closed spec fn records(&self) -> Seq<MatchRecord> {
        self.result@
    }

    /// A file with no text yet and no records.
    pub fn new(path: std::path::PathBuf, file_name: String) -> (r: Self)
        ensures
            r.location() == path,
            r.name() == file_name@,
            r.text().len() == 0,
            r.records().len() == 0,
    {
        FileGrep { value: String::new(), path, file_name, result: Vec::new() }
    }

    /// Takes `bytes`, the file's content, as its text. Fails, and changes
    /// nothing, when they are not valid UTF-8.
    pub fn read(&mut self, bytes: Vec<u8>) -> (r: Result<(), GrepError>)
        ensures
            r is Ok <==> valid_utf8(bytes@),
            r is Ok ==> final(self).text() == decode_utf8(bytes@),
            r is Err ==> final(self).text() == old(self).text(),
            r matches Err(e) ==> e matches GrepError::DecodeFailure { file_name: n } && n@
                == old(self).name(),
            final(self).name() == old(self).name(),
            final(self).location() == old(self).location(),
            final(self).records() == old(self).records(),
    {
        match utf8_text(bytes) {
            Some(text) => {
                proof {
                    encode_utf8_decode_utf8(text@);
                }
                self.value = text;
                Ok(())
            },
            None => Err(GrepError::DecodeFailure { file_name: self.file_name.clone() }),
        }
    }

    /// Replaces the records with those of a scan of the text with `pattern`:
    /// each record cuts its line into three parts that rejoin to the line,
    /// and the line numbers strictly increase.
    pub fn search(&mut self, pattern: &Pattern)
        ensures
            scan_result(final(self).text(), pattern@, final(self).records()),
            records_rejoin(final(self).text(), final(self).records()),
            numbers_increase(final(self).records()),
            final(self).text() == old(self).text(),
            final(self).name() == old(self).name(),
            final(self).location() == old(self).location(),
    {
        self.result = scan(self.value.as_str(), pattern);
    }

    /// The header to show above the records: the file's name when the last
    /// search found something, and nothing when it found nothing.
    pub fn heading(&self) -> (r: Option<String>)
        ensures
            r is Some <==> self.records().len() > 0,
            r matches Some(n) ==> n@ == self.name(),
    {
        if self.result.len() > 0 {
            Some(self.file_name.clone())
        } else {
            None
        }
    }

    /// The records of the last search.
    pub fn matches(&self) -> (r: &Vec<MatchRecord>)
        ensures
            r@ == self.records(),
    {
        &self.result
    }

    /// The name shown for the file.
    pub fn file_name(&self) -> (r: &String)
        ensures
            r@ == self.name(),
    {
        &self.file_name
    }

    /// Where the file is.
    pub fn path(&self) -> (r: &std::path::PathBuf)
        ensures
            *r == self.location(),
    {
        &self.path
    }
}

} // verus!
