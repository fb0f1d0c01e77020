use vstd::prelude::*;
use crate::actor::{Actor, Record};
use crate::error::{Error, ErrorKind};
use crate::json::{parse_record, parse_record_chars, record_json};
use crate::text::{chars_to_string, push_str_chars, str_to_chars};

verus! {

/// A name safe to splice into a record path: non-empty, holding no path
/// separator and no traversal sequence.
pub open spec fn fs_safe_name(name: Seq<char>) -> bool {
    name.len() > 0 && (forall|i: int| 0 <= i < name.len() ==> name[i] != '/') && (forall|i: int|
        0 <= i < name.len() - 1 ==> !(#[trigger] name[i] == '.' && name[i + 1] == '.'))
}

/// Decides [`fs_safe_name`], so callers can validate a caller-supplied name
/// before deriving a path from it.
pub fn is_fs_safe_name(name: &str) -> (r: bool)
    ensures
        r == fs_safe_name(name@),
{
    let len = name.unicode_len();
    if len == 0 {
        return false;
    }
    let mut i: usize = 0;
    let mut prev_dot = false;
    while i < len
        invariant
            i <= len,
            len == name@.len(),
            forall|j: int| 0 <= j < i ==> name@[j] != '/',
            forall|j: int| 0 <= j < i - 1 ==> !(#[trigger] name@[j] == '.' && name@[j + 1] == '.'),
            prev_dot == (i > 0 && name@[i - 1] == '.'),
        decreases len - i,
    {
        let c = name.get_char(i);
        if c == '/' {
            return false;
        }
        if c == '.' && prev_dot {
            proof {
                assert(name@[i - 1] == '.' && name@[i as int] == '.');
            }
            return false;
        }
        prev_dot = c == '.';
        i += 1;
    }
    true
}

/// The relative path of a name's record under the storage root.
pub open spec fn record_path_spec(name: Seq<char>) -> Seq<char> {
    "./data/actors/"@ + name + ".json"@
}

/// The file path holding the record for a name. The name must be safe to
/// embed in a path; [`is_fs_safe_name`] decides that.
pub fn record_path(name: &str) -> (r: String)
    requires
        fs_safe_name(name@),
    ensures
        r@ == record_path_spec(name@),
{
    let mut out: Vec<char> = Vec::new();
    push_str_chars(&mut out, "./data/actors/");
    push_str_chars(&mut out, name);
    push_str_chars(&mut out, ".json");
    proof {
        assert(out@ =~= record_path_spec(name@));
    }
    chars_to_string(&out)
}

/// What reading a record file produced, as plain values: no file, an I/O
/// failure, or the file's text.
pub enum LoadOutcome {
    Missing,
    IoFailure(String),
    Contents(String),
}

/// Interprets what was read for a name: a missing file is `NotFound` with no
/// diagnostic, an I/O failure is `Unknown` carrying the handed diagnostic,
/// and text that is not a well-formed record is `InvalidRecord` with a fixed
/// diagnostic. A record is well-formed when it is the JSON object holding
/// the `name` and `privateKeyPem` string fields in that order, with any
/// insignificant whitespace; extra members or reordered fields are rejected.
pub fn load_from_outcome(outcome: LoadOutcome) -> (r: Result<Record, Error>)
    ensures
        match outcome {
            LoadOutcome::Missing => r matches Err(e) && e.kind == ErrorKind::NotFound
                && e.message is None,
            LoadOutcome::IoFailure(m) => r matches Err(e) && e.kind == ErrorKind::Unknown
                && e.message == Some(m),
            LoadOutcome::Contents(s) => match parse_record(s@) {
                Some(p) => r matches Ok(rec) && rec.name@ == p.0 && rec.private_key_pem@ == p.1,
                None => r matches Err(e) && e.kind == ErrorKind::InvalidRecord && (e.message
                    matches Some(m) && m@ == "not a canonical actor record"@),
            },
        },
{
    match outcome {
        LoadOutcome::Missing => Err(Error::empty(ErrorKind::NotFound)),
        LoadOutcome::IoFailure(m) => Err(Error::debug(m, ErrorKind::Unknown)),
        LoadOutcome::Contents(s) => {
            let chars = str_to_chars(s.as_str());
            match parse_record_chars(&chars) {
                Some((name, pem)) => Ok(Record { name, private_key_pem: pem }),
                None => Err(
                    Error::debug("not a canonical actor record".to_owned(), ErrorKind::InvalidRecord),
                ),
            }
        },
    }
}

/// Startup reconciliation for one name. A loadable record yields the actor it
/// reconstructs; any load or reconstruction failure falls back to a freshly
/// generated actor together with the record text that must be persisted for
/// it. Only a generation failure is fatal. The name must be path-safe;
/// [`is_fs_safe_name`] decides that.
pub fn reconcile(name: &str, outcome: LoadOutcome) -> (r: Result<(Actor, Option<String>), Error>)
    requires
        fs_safe_name(name@),
    ensures
        r matches Ok(p) ==> match p.1 {
            Some(t) => p.0@.name == name@ && t@ == record_json(p.0@.name, p.0@.private_pem),
            None => outcome matches LoadOutcome::Contents(s) && parse_record(s@) matches Some(q)
                && p.0@.name == q.0,
        },
        r matches Err(e) ==> e.kind == ErrorKind::Security && e.message is Some,
{
    match load_from_outcome(outcome) {
        Ok(rec) => match Actor::from_record(&rec) {
            Ok(a) => { return Ok((a, None)); },
            Err(_) => {},
        },
        Err(_) => {},
    }
    let a = match Actor::new(name) {
        Ok(a) => a,
        Err(e) => { return Err(e); },
    };
    let text = a.record_text();
    Ok((a, Some(text)))
}

} // verus!
