//! The catalog loader.  The persisted catalog document is JSON text; the
//! parsing itself is delegated to serde_json behind trusted wrappers, and
//! verified code walks the parsed value: it extracts the fields, applies the
//! documented defaults, and rejects schema violations.  Any failure here is
//! fatal to startup — there is no default catalog.
//!
//! Each serde_json call is a function of its arguments alone, so its result
//! carries a name (`spec_parsed`, `spec_get`, `spec_as_str`,
//! `spec_as_array`); the loader's contracts then say exactly which catalog a
//! document yields, and on which documents which error comes, over a
//! spec-level walk of those names.

use vstd::prelude::*;

use crate::program::{view_opt_string, ConfigLoad, Programm, ProgrammStatus, SpecProgram};
use crate::strings::str_eq;
use crate::views::lemma_deep_view_push;

verus! {

#[verifier::external_type_specification]
#[verifier::external_body]
pub struct ExValue(serde_json::Value);

/// Why a catalog document was rejected.
#[derive(Debug)]
pub enum CatalogLoadError {
    /// The text is not one well-formed JSON document; carries the parser's
    /// message.
    Malformed(String),
    /// A required field is missing or of the wrong shape, or a name is
    /// empty; carries the offending key.
    Schema(String),
}

/// What serde_json::from_str::<Value> parses the text into; `None` when the
/// text is not one well-formed JSON document.
pub uninterp spec fn spec_parsed(s: Seq<char>) -> Option<serde_json::Value>;

/// What serde_json::Value::get returns for a string key: the value stored
/// under the key when the receiver is an object holding it, `None` otherwise.
pub uninterp spec fn spec_get(v: serde_json::Value, key: Seq<char>) -> Option<serde_json::Value>;

/// What serde_json::Value::as_str returns: the contained text when the
/// value is a JSON string, `None` otherwise.
pub uninterp spec fn spec_as_str(v: serde_json::Value) -> Option<Seq<char>>;

/// What serde_json::Value::as_array returns: the contained elements when
/// the value is a JSON array, `None` otherwise.
pub uninterp spec fn spec_as_array(v: serde_json::Value) -> Option<Seq<serde_json::Value>>;

/// Relies on serde_json::from_str::<Value>: parses the text as one JSON
/// document, the same document for the same text, or reports why it cannot
/// be.  The error message is the parser's own and is not specified.
#[verifier::external_body]
fn json_from_str(s: &str) -> (r: Result<serde_json::Value, String>)
    ensures
        match r {
            Ok(v) => spec_parsed(s@) == Some(v),
            Err(_) => spec_parsed(s@) is None,
        },
{
    serde_json::from_str::<serde_json::Value>(s).map_err(|e| e.to_string())
}

/// Relies on serde_json::Value::get with a string index.
#[verifier::external_body]
fn value_get<'a>(v: &'a serde_json::Value, key: &str) -> (r: Option<&'a serde_json::Value>)
    ensures
        match r {
            Some(x) => spec_get(*v, key@) == Some(*x),
            None => spec_get(*v, key@) is None,
        },
{
    v.get(key)
}

/// Relies on serde_json::Value::as_str; the text comes back owned.
#[verifier::external_body]
fn value_as_str(v: &serde_json::Value) -> (r: Option<String>)
    ensures
        view_opt_string(r) == spec_as_str(*v),
{
    v.as_str().map(|s| s.to_owned())
}

/// Relies on serde_json::Value::as_array.
#[verifier::external_body]
fn value_as_array<'a>(v: &'a serde_json::Value) -> (r: Option<&'a Vec<serde_json::Value>>)
    ensures
        match r {
            Some(a) => spec_as_array(*v) == Some(a@),
            None => spec_as_array(*v) is None,
        },
{
    v.as_array()
}

/// The install status a catalog field names, spelled exactly.
pub open spec fn spec_status_of(s: Seq<char>) -> Option<ProgrammStatus> {
    if s == "Installed"@ {
        Some(ProgrammStatus::Installed)
    } else if s == "NotInstalled"@ {
        Some(ProgrammStatus::NotInstalled)
    } else {
        None
    }
}

/// Parse a status field's text.
pub fn status_from_str(s: &str) -> (r: Option<ProgrammStatus>)
    ensures
        r == spec_status_of(s@),
{
    if str_eq(s, "Installed") {
        Some(ProgrammStatus::Installed)
    } else if str_eq(s, "NotInstalled") {
        Some(ProgrammStatus::NotInstalled)
    } else {
        None
    }
}

/// The text a required string field holds: `None` when the field is absent
/// or not a string.
pub open spec fn spec_required_str(v: serde_json::Value, key: Seq<char>) -> Option<Seq<char>> {
    match spec_get(v, key) {
        Some(x) => spec_as_str(x),
        None => None,
    }
}

/// An optional string field: absent stays absent; present but not a string
/// is a violation.
pub open spec fn spec_opt_field(v: serde_json::Value, key: Seq<char>) -> Result<
    Option<Seq<char>>,
    (),
> {
    match spec_get(v, key) {
        Some(x) => match spec_as_str(x) {
            Some(s) => Ok(Some(s)),
            None => Err(()),
        },
        None => Ok(None),
    }
}

/// The status field: absent means "not yet chosen" (the caller defaults
/// it); present it must spell a status exactly.
pub open spec fn spec_status_field(v: serde_json::Value) -> Result<Option<ProgrammStatus>, ()> {
    match spec_get(v, "status"@) {
        Some(x) => match spec_as_str(x) {
            Some(s) => match spec_status_of(s) {
                Some(st) => Ok(Some(st)),
                None => Err(()),
            },
            None => Err(()),
        },
        None => Ok(None),
    }
}

/// The entry a program object yields, or the first offending key, walking
/// the fields in the loader's order: the required strings, then the
/// optional ones, then the status.  A name must be non-empty.
pub open spec fn spec_parse_program(v: serde_json::Value) -> Result<SpecProgram, Seq<char>> {
    match spec_required_str(v, "name"@) {
        None => Err("name"@),
        Some(name) => if name.len() == 0 {
            Err("name"@)
        } else {
            match spec_required_str(v, "description"@) {
                None => Err("description"@),
                Some(description_md) => match spec_required_str(v, "installation"@) {
                    None => Err("installation"@),
                    Some(installation) => match spec_required_str(v, "deletion"@) {
                        None => Err("deletion"@),
                        Some(deletion) => match spec_opt_field(v, "call"@) {
                            Err(_) => Err("call"@),
                            Ok(call) => match spec_opt_field(v, "docs_link"@) {
                                Err(_) => Err("docs_link"@),
                                Ok(docs_link) => match spec_status_field(v) {
                                    Err(_) => Err("status"@),
                                    Ok(status) => Ok(
                                        SpecProgram {
                                            name,
                                            call,
                                            description_md,
                                            docs_link,
                                            status: match status {
                                                Some(st) => st,
                                                None => ProgrammStatus::NotInstalled,
                                            },
                                            installation,
                                            deletion,
                                        },
                                    ),
                                },
                            },
                        },
                    },
                },
            }
        },
    }
}

/// The program list a sequence of JSON values yields, in order, or the
/// offending key of the first element that is rejected.
pub open spec fn spec_parse_programs(list: Seq<serde_json::Value>) -> Result<
    Seq<SpecProgram>,
    Seq<char>,
>
    decreases list.len(),
{
    if list.len() == 0 {
        Ok(Seq::empty())
    } else {
        match spec_parse_programs(list.drop_last()) {
            Err(k) => Err(k),
            Ok(ps) => match spec_parse_program(list.last()) {
                Ok(p) => Ok(ps.push(p)),
                Err(k) => Err(k),
            },
        }
    }
}

/// The catalog a parsed document yields — its name and its program list —
/// or the first offending key.
pub open spec fn spec_parse_doc(doc: serde_json::Value) -> Result<
    (Seq<char>, Seq<SpecProgram>),
    Seq<char>,
> {
    match spec_required_str(doc, "name"@) {
        None => Err("name"@),
        Some(name) => match spec_get(doc, "programms"@) {
            None => Err("programms"@),
            Some(x) => match spec_as_array(x) {
                None => Err("programms"@),
                Some(list) => match spec_parse_programs(list) {
                    Ok(ps) => Ok((name, ps)),
                    Err(k) => Err(k),
                },
            },
        },
    }
}

/// Once an element is rejected, the whole list is, with that element's key
/// — provided every element before it was accepted.
proof fn lemma_parse_programs_first_err(list: Seq<serde_json::Value>, i: int, k: Seq<char>)
    requires
        0 <= i < list.len(),
        spec_parse_programs(list.take(i)) is Ok,
        spec_parse_program(list[i]) == Err::<SpecProgram, Seq<char>>(k),
    ensures
        spec_parse_programs(list) == Err::<Seq<SpecProgram>, Seq<char>>(k),
    decreases list.len(),
{
    if i == list.len() - 1 {
        assert(list.drop_last() =~= list.take(i));
        assert(list.last() == list[i]);
    } else {
        assert(list.drop_last().take(i) =~= list.take(i));
        assert(list.drop_last()[i] == list[i]);
        lemma_parse_programs_first_err(list.drop_last(), i, k);
    }
}

/// Build a catalog entry from its raw fields, applying the documented
/// defaults: a missing status means not installed, and absent optional
/// fields stay absent rather than becoming empty text.
pub fn program_from_parts(
    name: String,
    call: Option<String>,
    description_md: String,
    docs_link: Option<String>,
    status: Option<ProgrammStatus>,
    installation: String,
    deletion: String,
) -> (p: Programm)
    ensures
        p@.name == name@,
        p@.call == view_opt_string(call),
        p@.description_md == description_md@,
        p@.docs_link == view_opt_string(docs_link),
        p@.status == (match status {
            Some(st) => st,
            None => ProgrammStatus::NotInstalled,
        }),
        p@.installation == installation@,
        p@.deletion == deletion@,
{
    let st = match status {
        Some(st) => st,
        None => ProgrammStatus::NotInstalled,
    };
    Programm { name, call, description_md, docs_link, status: st, installation, deletion }
}

/// A required string field of a JSON object, or the key it failed on.
fn required_str(v: &serde_json::Value, key: &str) -> (r: Result<String, CatalogLoadError>)
    ensures
        match r {
            Ok(s) => spec_required_str(*v, key@) == Some(s@),
            Err(e) => {
                &&& spec_required_str(*v, key@) is None
                &&& match e {
                    CatalogLoadError::Schema(k) => k@ == key@,
                    _ => false,
                }
            },
        },
{
    match value_get(v, key) {
        Some(x) => match value_as_str(x) {
            Some(s) => Ok(s),
            None => Err(CatalogLoadError::Schema(String::from_str(key))),
        },
        None => Err(CatalogLoadError::Schema(String::from_str(key))),
    }
}

/// An optional string field: absent stays absent; present but not a string
/// is a schema violation.
fn optional_str(v: &serde_json::Value, key: &str) -> (r: Result<Option<String>, CatalogLoadError>)
    ensures
        match r {
            Ok(o) => spec_opt_field(*v, key@) == Ok::<Option<Seq<char>>, ()>(view_opt_string(o)),
            Err(e) => {
                &&& spec_opt_field(*v, key@) is Err
                &&& match e {
                    CatalogLoadError::Schema(k) => k@ == key@,
                    _ => false,
                }
            },
        },
{
    match value_get(v, key) {
        Some(x) => match value_as_str(x) {
            Some(s) => Ok(Some(s)),
            None => Err(CatalogLoadError::Schema(String::from_str(key))),
        },
        None => Ok(None),
    }
}

/// One catalog entry from its JSON value: exactly the entry the spec-level
/// walk yields, or a schema error naming the first offending key.
fn parse_program(v: &serde_json::Value) -> (r: Result<Programm, CatalogLoadError>)
    ensures
        match r {
            Ok(p) => spec_parse_program(*v) == Ok::<SpecProgram, Seq<char>>(p@) && p@.name.len()
                > 0,
            Err(e) => match e {
                CatalogLoadError::Schema(k) => spec_parse_program(*v) == Err::<
                    SpecProgram,
                    Seq<char>,
                >(k@),
                _ => false,
            },
        },
{
    let name = match required_str(v, "name") {
        Ok(s) => s,
        Err(e) => {
            return Err(e);
        },
    };
    if name.as_str().unicode_len() == 0 {
        return Err(CatalogLoadError::Schema(String::from_str("name")));
    }
    let description_md = match required_str(v, "description") {
        Ok(s) => s,
        Err(e) => {
            return Err(e);
        },
    };
    let installation = match required_str(v, "installation") {
        Ok(s) => s,
        Err(e) => {
            return Err(e);
        },
    };
    let deletion = match required_str(v, "deletion") {
        Ok(s) => s,
        Err(e) => {
            return Err(e);
        },
    };
    let call = match optional_str(v, "call") {
        Ok(o) => o,
        Err(e) => {
            return Err(e);
        },
    };
    let docs_link = match optional_str(v, "docs_link") {
        Ok(o) => o,
        Err(e) => {
            return Err(e);
        },
    };
    let status = match value_get(v, "status") {
        Some(x) => match value_as_str(x) {
            Some(s) => match status_from_str(s.as_str()) {
                Some(st) => Some(st),
                None => {
                    return Err(CatalogLoadError::Schema(String::from_str("status")));
                },
            },
            None => {
                return Err(CatalogLoadError::Schema(String::from_str("status")));
            },
        },
        None => None,
    };
    let p = program_from_parts(name, call, description_md, docs_link, status, installation,
        deletion);
    proof {
        assert(spec_status_field(*v) == Ok::<Option<ProgrammStatus>, ()>(status));
        assert(p@ =~= (SpecProgram {
            name: name@,
            call: view_opt_string(call),
            description_md: description_md@,
            docs_link: view_opt_string(docs_link),
            status: match status {
                Some(st) => st,
                None => ProgrammStatus::NotInstalled,
            },
            installation: installation@,
            deletion: deletion@,
        }));
        assert(spec_parse_program(*v) == Ok::<SpecProgram, Seq<char>>(p@));
    }
    Ok(p)
}

/// Parse a whole catalog document: its name and its ordered program list.
/// The result is pinned by the spec-level walk of the parsed document: a
/// `Malformed` error exactly when the text is not one JSON document, the
/// walked catalog on success, and a `Schema` error naming the first
/// offending key otherwise.  Every accepted entry carries a non-empty name.
#[verifier::loop_isolation(false)]
pub fn parse_catalog(text: &str) -> (r: Result<ConfigLoad, CatalogLoadError>)
    ensures
        match r {
            Ok(c) => {
                &&& match spec_parsed(text@) {
                    Some(doc) => spec_parse_doc(doc) == Ok::<
                        (Seq<char>, Seq<SpecProgram>),
                        Seq<char>,
                    >((c.name@, c.programms.deep_view())),
                    None => false,
                }
                &&& forall|i: int|
                    0 <= i < c.programms.deep_view().len() ==> (
                    #[trigger] c.programms.deep_view()[i].name).len() > 0
            },
            Err(e) => match e {
                CatalogLoadError::Malformed(_) => spec_parsed(text@) is None,
                CatalogLoadError::Schema(k) => match spec_parsed(text@) {
                    Some(doc) => spec_parse_doc(doc) == Err::<
                        (Seq<char>, Seq<SpecProgram>),
                        Seq<char>,
                    >(k@),
                    None => false,
                },
            },
        },
{
    let doc = match json_from_str(text) {
        Ok(v) => v,
        Err(e) => {
            return Err(CatalogLoadError::Malformed(e));
        },
    };
    let name = match required_str(&doc, "name") {
        Ok(s) => s,
        Err(e) => {
            return Err(e);
        },
    };
    let list = match value_get(&doc, "programms") {
        Some(x) => match value_as_array(x) {
            Some(a) => a,
            None => {
                return Err(CatalogLoadError::Schema(String::from_str("programms")));
            },
        },
        None => {
            return Err(CatalogLoadError::Schema(String::from_str("programms")));
        },
    };
    let mut programms: Vec<Programm> = Vec::new();
    let mut i: usize = 0;
    proof {
        assert(list@.take(0) =~= Seq::<serde_json::Value>::empty());
        assert(programms.deep_view() =~= Seq::<SpecProgram>::empty());
    }
    while i < list.len()
        invariant
            i <= list@.len(),
            spec_parse_programs(list@.take(i as int)) == Ok::<Seq<SpecProgram>, Seq<char>>(
                programms.deep_view(),
            ),
            forall|j: int|
                0 <= j < programms.deep_view().len() ==> (
                #[trigger] programms.deep_view()[j].name).len() > 0,
        decreases list@.len() - i,
    {
        let entry = match parse_program(&list[i]) {
            Ok(p) => p,
            Err(e) => {
                proof {
                    match &e {
                        CatalogLoadError::Schema(k) => {
                            lemma_parse_programs_first_err(list@, i as int, k@);
                        },
                        CatalogLoadError::Malformed(_) => {
                            assert(false);
                        },
                    }
                }
                return Err(e);
            },
        };
        let ghost pre = programms;
        let ghost eg = entry;
        programms.push(entry);
        i = i + 1;
        proof {
            lemma_deep_view_push(pre, programms, eg);
            assert(list@.take(i as int).drop_last() =~= list@.take(i - 1));
            assert(list@.take(i as int).last() == list@[i - 1]);
        }
    }
    proof {
        assert(list@.take(list@.len() as int) =~= list@);
    }
    Ok(ConfigLoad { name, programms })
}

} // verus!
