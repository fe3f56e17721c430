//! The environment that steps run in, as a login shell has it.

use crate::outside::{decode_text, hash_hex};
#[allow(unused_imports)]
use crate::outside::blake3_hex;
use crate::runner::RunnerError;
use crate::scan::{find_bytes, split_bytes};
#[allow(unused_imports)]
use crate::scan::{contains_part, first_place, occurs_at, runs, split_at};
#[allow(unused_imports)]
use crate::step_run::plain;
use crate::text::{copy_range, push_bytes, str_equal};
use crate::text_map::TextMap;
use vstd::prelude::*;
use vstd::utf8::{decode_utf8, encode_utf8, valid_utf8};

verus! {

/// What stands before the variables in the output of a login shell.
pub open spec fn start_marker() -> Seq<u8> {
    encode_utf8("\u{1e}TOLLGATE_ENV_V1\0"@)
}

/// What stands behind the variables in the output of a login shell.
pub open spec fn end_marker() -> Seq<u8> {
    encode_utf8("\u{1e}TOLLGATE_ENV_END\0"@)
}

/// What is wrong with the output of a login shell.
pub enum EnvironmentFault {
    StartMissing,
    EndMissing,
    EqualsMissing,
    NotText,
    PathMissing,
}

/// The error reports the fault. The wording of a decoder's complaint is left open.
pub open spec fn environment_error(error: RunnerError, fault: EnvironmentFault) -> bool {
    error matches RunnerError::Environment(reason) && match fault {
        EnvironmentFault::StartMissing => reason@ == "environment start frame missing"@,
        EnvironmentFault::EndMissing => reason@ == "environment end frame missing"@,
        EnvironmentFault::EqualsMissing => reason@ == "environment entry omitted '='"@,
        EnvironmentFault::NotText => true,
        EnvironmentFault::PathMissing => reason@ == "login shell did not provide PATH"@,
    }
}

/// Position `i` is the first at which the byte stands.
pub open spec fn first_byte(bytes: Seq<u8>, byte: u8, i: int) -> bool {
    &&& 0 <= i < bytes.len()
    &&& bytes[i] == byte
    &&& forall|j: int| 0 <= j < i ==> #[trigger] bytes[j] != byte
}

/// The variables that the fields from `i` on set, after those already set. Empty fields
/// set nothing, and what is set twice has its last value.
pub open spec fn variables_from(
    fields: Seq<Seq<u8>>,
    i: int,
    map: Map<Seq<char>, Seq<char>>,
) -> Result<Map<Seq<char>, Seq<char>>, EnvironmentFault>
    decreases fields.len() - i,
{
    if i >= fields.len() {
        Ok(map)
    } else if fields[i].len() == 0 {
        variables_from(fields, i + 1, map)
    } else if !fields[i].contains(61u8) {
        Err(EnvironmentFault::EqualsMissing)
    } else {
        let at = choose|at: int| first_byte(fields[i], 61u8, at);
        let name = fields[i].take(at);
        let value = fields[i].skip(at + 1);
        if !valid_utf8(name) || !valid_utf8(value) {
            Err(EnvironmentFault::NotText)
        } else {
            variables_from(fields, i + 1, map.insert(decode_utf8(name), decode_utf8(value)))
        }
    }
}

/// The part of the output between the markers.
pub open spec fn between_markers(output: Seq<u8>) -> Result<Seq<u8>, EnvironmentFault> {
    if !contains_part(output, start_marker()) {
        Err(EnvironmentFault::StartMissing)
    } else {
        let start = choose|i: int| first_place(output, start_marker(), i);
        let rest = output.skip(start + start_marker().len());
        if !contains_part(rest, end_marker()) {
            Err(EnvironmentFault::EndMissing)
        } else {
            Ok(rest.take(choose|i: int| first_place(rest, end_marker(), i)))
        }
    }
}

/// The environment that a login shell printed.
pub open spec fn printed_environment(output: Seq<u8>) -> Result<
    Map<Seq<char>, Seq<char>>,
    EnvironmentFault,
> {
    match between_markers(output) {
        Err(fault) => Err(fault),
        Ok(part) => match variables_from(split_at(part, 0), 0, Map::empty()) {
            Err(fault) => Err(fault),
            Ok(map) => if map.contains_key("PATH"@) {
                Ok(map)
            } else {
                Err(EnvironmentFault::PathMissing)
            },
        },
    }
}

proof fn lemma_first_place_unique(haystack: Seq<u8>, needle: Seq<u8>, i: int)
    requires
        first_place(haystack, needle, i),
    ensures
        (choose|j: int| first_place(haystack, needle, j)) == i,
{
    let other = choose|j: int| first_place(haystack, needle, j);
    if other < i {
        assert(!occurs_at(haystack, needle, other));
    } else if i < other {
        assert(!occurs_at(haystack, needle, i));
    }
}

proof fn lemma_first_byte_unique(bytes: Seq<u8>, byte: u8, i: int)
    requires
        first_byte(bytes, byte, i),
    ensures
        (choose|j: int| first_byte(bytes, byte, j)) == i,
{
    let other = choose|j: int| first_byte(bytes, byte, j);
    if other < i {
        assert(bytes[other] != byte);
    } else if i < other {
        assert(bytes[i] != byte);
    }
}

proof fn lemma_markers()
    ensures
        start_marker().len() > 0,
        end_marker().len() > 0,
{
    reveal_strlit("\u{1e}TOLLGATE_ENV_V1\0");
    reveal_strlit("\u{1e}TOLLGATE_ENV_END\0");
    reveal_with_fuel(encode_utf8, 2);
}

fn environment_fault(reason: &str) -> (r: RunnerError)
    ensures
        r matches RunnerError::Environment(text) && text@ == reason@,
{
    RunnerError::Environment(reason.to_owned())
}

fn find_byte(bytes: &Vec<u8>, byte: u8) -> (r: Option<usize>)
    ensures
        r is Some <==> bytes@.contains(byte),
        r matches Some(i) ==> first_byte(bytes@, byte, i as int),
{
    let mut i: usize = 0;
    while i < bytes.len()
        invariant
            i <= bytes@.len(),
            forall|j: int| 0 <= j < i ==> #[trigger] bytes@[j] != byte,
        decreases bytes@.len() - i,
    {
        if bytes[i] == byte {
            return Some(i);
        }
        i += 1;
    }
    None
}

/// Reads the environment out of what a login shell printed.
pub fn read_environment(output: &[u8]) -> (r: Result<TextMap<String>, RunnerError>)
    ensures
        r is Ok <==> printed_environment(output@) is Ok,
        r matches Ok(map) ==> printed_environment(output@)
            == Ok::<Map<Seq<char>, Seq<char>>, EnvironmentFault>(plain(map@)),
        r matches Err(error) ==> (printed_environment(output@) matches Err(fault)
            && environment_error(error, fault)),
{
    proof {
        lemma_markers();
    }
    let opening = "\u{1e}TOLLGATE_ENV_V1\0".as_bytes();
    let closing = "\u{1e}TOLLGATE_ENV_END\0".as_bytes();
    let total: usize = output.len();
    let start: usize = match find_bytes(output, opening) {
        Some(at) => {
            proof {
                lemma_first_place_unique(output@, start_marker(), at as int);
                assert(at + opening@.len() <= total);
            }
            at + opening.len()
        },
        None => {
            return Err(environment_fault("environment start frame missing"));
        },
    };
    let rest = copy_range(output, start, total);
    assert(rest@ =~= output@.skip(start as int));
    let end: usize = match find_bytes(rest.as_slice(), closing) {
        Some(at) => at,
        None => {
            return Err(environment_fault("environment end frame missing"));
        },
    };
    proof {
        lemma_first_place_unique(rest@, end_marker(), end as int);
    }
    let part = copy_range(rest.as_slice(), 0, end);
    assert(part@ =~= rest@.take(end as int));
    let fields = split_bytes(part.as_slice(), 0);
    let ghost all = split_at(part@, 0);
    let mut map: TextMap<String> = TextMap::new();
    let mut i: usize = 0;
    proof {
        assert(plain(map@) =~= Map::empty());
        assert(runs(fields@).len() == fields@.len());
    }
    while i < fields.len()
        invariant
            i <= fields@.len(),
            all == runs(fields@),
            between_markers(output@) == Ok::<Seq<u8>, EnvironmentFault>(part@),
            all == split_at(part@, 0),
            variables_from(all, 0, Map::empty()) == variables_from(all, i as int, plain(map@)),
        decreases fields@.len() - i,
    {
        let field = &fields[i];
        assert(all[i as int] == field@);
        if field.len() == 0 {
            i += 1;
            continue;
        }
        let at: usize = match find_byte(field, 61) {
            Some(at) => at,
            None => {
                return Err(environment_fault("environment entry omitted '='"));
            },
        };
        proof {
            lemma_first_byte_unique(field@, 61, at as int);
        }
        let left = copy_range(field.as_slice(), 0, at);
        let right = copy_range(field.as_slice(), at + 1, field.len());
        proof {
            assert(left@ =~= field@.take(at as int));
            assert(right@ =~= field@.skip(at + 1));
        }
        let name = match decode_text(left.as_slice()) {
            Ok(name) => name,
            Err(reason) => {
                return Err(RunnerError::Environment(reason));
            },
        };
        let value = match decode_text(right.as_slice()) {
            Ok(value) => value,
            Err(reason) => {
                return Err(RunnerError::Environment(reason));
            },
        };
        let ghost before = map@;
        map.insert(name, value);
        assert(plain(map@) =~= plain(before).insert(name@, value@));
        i += 1;
    }
    if map.get("PATH").is_none() {
        return Err(environment_fault("login shell did not provide PATH"));
    }
    Ok(map)
}

/// How a shell is asked to behave like one that a user logs in to: the shells known to
/// allow it are asked to be interactive, too.
pub fn login_shell_mode(shell_name: &str) -> (r: &'static str)
    ensures
        r@ == if shell_name@ == "zsh"@ || shell_name@ == "bash"@ || shell_name@ == "sh"@
            || shell_name@ == "ksh"@ {
            "-ilc"@
        } else {
            "-lc"@
        },
{
    if str_equal(shell_name, "zsh") || str_equal(shell_name, "bash") || str_equal(shell_name, "sh")
        || str_equal(shell_name, "ksh") {
        "-ilc"
    } else {
        "-lc"
    }
}

/// An environment that was captured, with a digest by which it can be told from others.
#[derive(Clone, Debug, PartialEq, Eq)]
pub struct EnvironmentSnapshot {
    pub id: String,
    pub variables: TextMap<String>,
    pub fingerprint: String,
}

/// The bytes of variables that a fingerprint is made of, in the order of their names.
pub open spec fn variable_bytes(keys: Seq<Seq<char>>, map: Map<Seq<char>, String>) -> Seq<u8>
    decreases keys.len(),
{
    if keys.len() == 0 {
        Seq::empty()
    } else {
        variable_bytes(keys.drop_last(), map) + encode_utf8(keys.last()) + seq![0u8] + encode_utf8(
            map[keys.last()]@,
        ) + seq![0xffu8]
    }
}

impl EnvironmentSnapshot {
    /// Captures an environment under an identifier.
    pub fn from_variables(id: String, variables: TextMap<String>) -> (r: EnvironmentSnapshot)
        ensures
            r.id == id,
            r.variables == variables,
            r.fingerprint@ == blake3_hex(
                encode_utf8(id@) + variable_bytes(variables.keys(), variables@),
            ),
    {
        let mut bytes: Vec<u8> = Vec::new();
        push_bytes(&mut bytes, id.as_str().as_bytes());
        let ghost start = encode_utf8(id@);
        let ghost keys = variables.keys();
        let count: usize = variables.len();
        let mut i: usize = 0;
        proof {
            assert(bytes@ =~= start + variable_bytes(keys.take(0), variables@));
        }
        while i < count
            invariant
                i <= count == keys.len(),
                keys == variables.keys(),
                bytes@ == start + variable_bytes(keys.take(i as int), variables@),
            decreases count - i,
        {
            let ghost before = bytes@;
            let key = variables.key_at(i);
            let value = variables.value_at(i);
            push_bytes(&mut bytes, key.as_str().as_bytes());
            bytes.push(0);
            push_bytes(&mut bytes, value.as_str().as_bytes());
            bytes.push(0xff);
            proof {
                let part = keys.take(i + 1);
                assert(part.drop_last() =~= keys.take(i as int));
                assert(part.last() == keys[i as int]);
                assert(bytes@ =~= start + variable_bytes(part, variables@));
            }
            i += 1;
        }
        assert(keys.take(i as int) =~= keys);
        let fingerprint = hash_hex(bytes.as_slice());
        EnvironmentSnapshot { id, variables, fingerprint }
    }
}

} // verus!
