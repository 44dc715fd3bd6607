//! Checks on messages crossing the transport: size, nesting, string and array limits,
//! protocol version and correlation identity.
use crate::protocol::{API_VERSION, Event, MAX_MESSAGE_BYTES, Request};
use crate::text::chars_of;
use vstd::prelude::*;

verus! {

broadcast use vstd::std_specs::vec::group_vec_axioms;

/// A parsed JSON document, as the budget check reads it. Numbers keep their text.
#[derive(Debug)]
pub enum Json {
    Null,
    Bool(bool),
    Number(String),
    Text(String),
    Array(Vec<Json>),
    Object(Vec<(String, Json)>),
}

/// The deepest nesting accepted.
pub const MAX_DEPTH: usize = 24;

/// The longest string accepted, in Unicode scalars.
pub const MAX_STRING: usize = 8192;

/// The longest array accepted.
pub const MAX_ARRAY: usize = 32768;

/// The first limit a value at nesting `depth` exceeds, in document order.
pub open spec fn budget_error(value: Json, depth: int) -> Option<Seq<char>>
    decreases value, 0int,
{
    if depth > MAX_DEPTH {
        Some("Message is too deeply nested"@)
    } else {
        match value {
            Json::Text(text) => if text@.len() > MAX_STRING {
                Some("String is too long"@)
            } else {
                None
            },
            Json::Array(items) => if items@.len() > MAX_ARRAY {
                Some("Array is too large"@)
            } else {
                proof {
                    assert(decreases_to!(items => items@));
                }
                items_error(items@, depth + 1)
            },
            Json::Object(fields) => {
                proof {
                    assert(decreases_to!(fields => fields@));
                }
                fields_error(fields@, depth + 1)
            },
            _ => None,
        }
    }
}

/// The first limit the items exceed, in order.
pub open spec fn items_error(items: Seq<Json>, depth: int) -> Option<Seq<char>>
    decreases items, 1int,
{
    if items.len() == 0 {
        None
    } else {
        match budget_error(items[0], depth) {
            Some(e) => Some(e),
            None => items_error(items.drop_first(), depth),
        }
    }
}

/// The first limit the fields exceed, in order: each key, then its value.
pub open spec fn fields_error(fields: Seq<(String, Json)>, depth: int) -> Option<Seq<char>>
    decreases fields, 1int,
{
    if fields.len() == 0 {
        None
    } else if fields[0].0@.len() > MAX_STRING {
        Some("Object key is too long"@)
    } else {
        match budget_error(fields[0].1, depth) {
            Some(e) => Some(e),
            None => fields_error(fields.drop_first(), depth),
        }
    }
}


fn message(text: &str) -> (m: Result<(), String>)
    ensures
        m is Err,
        m->Err_0@ == text@,
{
    Err(String::from_str(text))
}

/// Checks the nesting, string and array limits of a value at nesting `depth`.
pub fn check_budget(value: &Json, depth: usize) -> (result: Result<(), String>)
    ensures
        match result {
            Ok(()) => budget_error(*value, depth as int) is None,
            Err(e) => budget_error(*value, depth as int) == Some(e@),
        },
    decreases value,
{
    if depth > MAX_DEPTH {
        return message("Message is too deeply nested");
    }
    match value {
        Json::Text(text) => {
            if chars_of(text.as_str()).len() > MAX_STRING {
                message("String is too long")
            } else {
                Ok(())
            }
        },
        Json::Array(items) => {
            if items.len() > MAX_ARRAY {
                return message("Array is too large");
            }
            let ghost all = items@;
            assert(all.skip(0) =~= all);
            assert(budget_error(*value, depth as int) == items_error(all, depth + 1));
            for i in 0..items.len()
                invariant
                    all == items@,
                    depth <= MAX_DEPTH,
                    *value == Json::Array(*items),
                    budget_error(*value, depth as int) == items_error(all.skip(i as int), depth + 1),
            {
                assert(all.skip(i as int)[0] == all[i as int]);
                assert(all.skip(i as int).drop_first() =~= all.skip(i + 1));
                proof {
                    assert(decreases_to!(*value => *items));
                    assert(decreases_to!(*items => items[i as int]));
                    assert(decreases_to!(*value => items[i as int]));
                }
                let checked = check_budget(&items[i], depth + 1);
                if checked.is_err() {
                    return checked;
                }
            }
            assert(all.skip(all.len() as int).len() == 0);
            Ok(())
        },
        Json::Object(fields) => {
            let ghost all = fields@;
            assert(all.skip(0) =~= all);
            assert(budget_error(*value, depth as int) == fields_error(all, depth + 1));
            for i in 0..fields.len()
                invariant
                    all == fields@,
                    depth <= MAX_DEPTH,
                    *value == Json::Object(*fields),
                    budget_error(*value, depth as int) == fields_error(all.skip(i as int), depth + 1),
            {
                assert(all.skip(i as int)[0] == all[i as int]);
                assert(all.skip(i as int).drop_first() =~= all.skip(i + 1));
                if chars_of(fields[i].0.as_str()).len() > MAX_STRING {
                    return message("Object key is too long");
                }
                proof {
                    assert(decreases_to!(*value => *fields));
                    assert(decreases_to!(*fields => fields[i as int]));
                    assert(decreases_to!(fields[i as int] => fields[i as int].1));
                    assert(decreases_to!(*value => fields[i as int].1));
                }
                let checked = check_budget(&fields[i].1, depth + 1);
                if checked.is_err() {
                    return checked;
                }
            }
            assert(all.skip(all.len() as int).len() == 0);
            Ok(())
        },
        _ => Ok(()),
    }
}

/// What the shared part of decoding concludes: the size limit, then the parse into a
/// document (`tree`), then its limits, then the parse into the typed message (`typed`).
pub open spec fn screened<T>(length: int, tree: Result<Json, String>, typed: Result<T, String>)
    -> Result<T, Seq<char>>
{
    if length > MAX_MESSAGE_BYTES {
        Err("Message exceeds 1 MiB"@)
    } else {
        match tree {
            Err(e) => Err(e@),
            Ok(doc) => match budget_error(doc, 0) {
                Some(e) => Err(e),
                None => match typed {
                    Err(e) => Err(e@),
                    Ok(message) => Ok(message),
                },
            },
        }
    }
}

fn screen<T>(length: usize, tree: Result<Json, String>, typed: Result<T, String>)
    -> (result: Result<T, String>)
    ensures
        match (result, screened(length as int, tree, typed)) {
            (Ok(m), Ok(n)) => m == n,
            (Err(e), Err(f)) => e@ == f,
            _ => false,
        },
{
    if length > MAX_MESSAGE_BYTES {
        return Err(String::from_str("Message exceeds 1 MiB"));
    }
    match tree {
        Err(e) => Err(e),
        Ok(doc) => match check_budget(&doc, 0) {
            Err(e) => Err(e),
            Ok(()) => typed,
        },
    }
}

/// Whether a request carries the supported version and a usable ID.
pub open spec fn request_identity_ok(request: Request) -> bool {
    request.version == API_VERSION && request.id != 0
}

/// Whether an event carries the supported version, a usable correlation and a sequence.
pub open spec fn event_identity_ok(event: Event) -> bool {
    event.version == API_VERSION && event.id != Some(0u64) && event.sequence != 0
}

/// Decodes one request message of `bytes`, given the transport's parse of those bytes into
/// a document (`tree`) and into a request (`typed`). The checks run in order: size, parse,
/// limits, typed parse, then version and ID.
pub fn decode_request(bytes: &[u8], tree: Result<Json, String>, typed: Result<Request, String>)
    -> (result: Result<Request, String>)
    ensures
        match screened(bytes@.len() as int, tree, typed) {
            Err(e) => result is Err && result->Err_0@ == e,
            Ok(request) => if request_identity_ok(request) {
                result == Ok::<Request, String>(request)
            } else {
                result is Err && result->Err_0@ == "Unsupported protocol version or request ID"@
            },
        },
{
    let request = screen(bytes.len(), tree, typed)?;
    if request.version != API_VERSION || request.id == 0 {
        return Err(String::from_str("Unsupported protocol version or request ID"));
    }
    Ok(request)
}

/// Decodes one event message of `bytes`, given the transport's parse of those bytes into a
/// document (`tree`) and into an event (`typed`). The checks run in order: size, parse,
/// limits, typed parse, then version, correlation and sequence.
pub fn decode_event(bytes: &[u8], tree: Result<Json, String>, typed: Result<Event, String>)
    -> (result: Result<Event, String>)
    ensures
        match screened(bytes@.len() as int, tree, typed) {
            Err(e) => result is Err && result->Err_0@ == e,
            Ok(event) => if event_identity_ok(event) {
                result == Ok::<Event, String>(event)
            } else {
                result is Err && result->Err_0@ == "Unsupported protocol version or event identity"@
            },
        },
{
    let event = screen(bytes.len(), tree, typed)?;
    let unidentified = match event.id {
        Some(id) => id == 0,
        None => false,
    };
    if event.version != API_VERSION || unidentified || event.sequence == 0 {
        return Err(String::from_str("Unsupported protocol version or event identity"));
    }
    Ok(event)
}

} // verus!
