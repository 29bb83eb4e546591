//! Field renaming rules applied when a struct descriptor is built,
//! the way a schema derive applies a rename-all attribute before any
//! schema operation runs: stored field names are already renamed.

use vstd::prelude::*;
use vstd::string::StrSliceExecFns;

use crate::schema::td_fields_model;
use crate::schema::TypeDesc;
use crate::schema::TypeDescModel;

verus! {

/// A rule renaming every field of a struct.
#[derive(Clone, Copy, Debug, PartialEq, Eq, Structural)]
pub enum RenameRule {
    Uppercase,
    Lowercase,
}

/// An ASCII letter raised to upper case; any other character stays.
pub open spec fn upper_char(c: char) -> char {
    if c == 'a' {
        'A'
    } else if c == 'b' {
        'B'
    } else if c == 'c' {
        'C'
    } else if c == 'd' {
        'D'
    } else if c == 'e' {
        'E'
    } else if c == 'f' {
        'F'
    } else if c == 'g' {
        'G'
    } else if c == 'h' {
        'H'
    } else if c == 'i' {
        'I'
    } else if c == 'j' {
        'J'
    } else if c == 'k' {
        'K'
    } else if c == 'l' {
        'L'
    } else if c == 'm' {
        'M'
    } else if c == 'n' {
        'N'
    } else if c == 'o' {
        'O'
    } else if c == 'p' {
        'P'
    } else if c == 'q' {
        'Q'
    } else if c == 'r' {
        'R'
    } else if c == 's' {
        'S'
    } else if c == 't' {
        'T'
    } else if c == 'u' {
        'U'
    } else if c == 'v' {
        'V'
    } else if c == 'w' {
        'W'
    } else if c == 'x' {
        'X'
    } else if c == 'y' {
        'Y'
    } else if c == 'z' {
        'Z'
    } else {
        c
    }
}

/// An ASCII letter lowered; any other character stays.
pub open spec fn lower_char(c: char) -> char {
    if c == 'A' {
        'a'
    } else if c == 'B' {
        'b'
    } else if c == 'C' {
        'c'
    } else if c == 'D' {
        'd'
    } else if c == 'E' {
        'e'
    } else if c == 'F' {
        'f'
    } else if c == 'G' {
        'g'
    } else if c == 'H' {
        'h'
    } else if c == 'I' {
        'i'
    } else if c == 'J' {
        'j'
    } else if c == 'K' {
        'k'
    } else if c == 'L' {
        'l'
    } else if c == 'M' {
        'm'
    } else if c == 'N' {
        'n'
    } else if c == 'O' {
        'o'
    } else if c == 'P' {
        'p'
    } else if c == 'Q' {
        'q'
    } else if c == 'R' {
        'r'
    } else if c == 'S' {
        's'
    } else if c == 'T' {
        't'
    } else if c == 'U' {
        'u'
    } else if c == 'V' {
        'v'
    } else if c == 'W' {
        'w'
    } else if c == 'X' {
        'x'
    } else if c == 'Y' {
        'y'
    } else if c == 'Z' {
        'z'
    } else {
        c
    }
}

/// One character under a rule.
pub open spec fn rename_char(rule: RenameRule, c: char) -> char {
    match rule {
        RenameRule::Uppercase => upper_char(c),
        RenameRule::Lowercase => lower_char(c),
    }
}

/// A whole name under a rule, character for character.
pub open spec fn renamed(rule: RenameRule, s: Seq<char>) -> Seq<char> {
    Seq::new(s.len(), |i: int| rename_char(rule, s[i]))
}

fn to_upper(c: char) -> (r: char)
    ensures
        r == upper_char(c),
{
    match c {
        'a' => 'A',
        'b' => 'B',
        'c' => 'C',
        'd' => 'D',
        'e' => 'E',
        'f' => 'F',
        'g' => 'G',
        'h' => 'H',
        'i' => 'I',
        'j' => 'J',
        'k' => 'K',
        'l' => 'L',
        'm' => 'M',
        'n' => 'N',
        'o' => 'O',
        'p' => 'P',
        'q' => 'Q',
        'r' => 'R',
        's' => 'S',
        't' => 'T',
        'u' => 'U',
        'v' => 'V',
        'w' => 'W',
        'x' => 'X',
        'y' => 'Y',
        'z' => 'Z',
        other => other,
    }
}

fn to_lower(c: char) -> (r: char)
    ensures
        r == lower_char(c),
{
    match c {
        'A' => 'a',
        'B' => 'b',
        'C' => 'c',
        'D' => 'd',
        'E' => 'e',
        'F' => 'f',
        'G' => 'g',
        'H' => 'h',
        'I' => 'i',
        'J' => 'j',
        'K' => 'k',
        'L' => 'l',
        'M' => 'm',
        'N' => 'n',
        'O' => 'o',
        'P' => 'p',
        'Q' => 'q',
        'R' => 'r',
        'S' => 's',
        'T' => 't',
        'U' => 'u',
        'V' => 'v',
        'W' => 'w',
        'X' => 'x',
        'Y' => 'y',
        'Z' => 'z',
        other => other,
    }
}

/// Relies on String::push: appends exactly one character.
#[verifier::external_body]
fn push_char(s: &mut String, c: char)
    ensures
        final(s)@ == old(s)@.push(c),
{
    s.push(c);
}

/// A name under a rule.
pub fn apply_rename(rule: RenameRule, name: &str) -> (r: String)
    ensures
        r@ == renamed(rule, name@),
{
    let n = name.unicode_len();
    let mut out = String::new();
    let mut i: usize = 0;
    while i < n
        invariant
            n == name@.len(),
            i <= n,
            out@ =~= renamed(rule, name@).subrange(0, i as int),
        decreases n - i,
    {
        let c = name.get_char(i);
        let rc = match rule {
            RenameRule::Uppercase => to_upper(c),
            RenameRule::Lowercase => to_lower(c),
        };
        push_char(&mut out, rc);
        proof {
            assert(out@ =~= renamed(rule, name@).subrange(0, i as int + 1));
        }
        i += 1;
    }
    proof {
        assert(renamed(rule, name@).subrange(0, n as int) =~= renamed(rule, name@));
    }
    out
}

/// What the fields of a struct descriptor look like once a rule was
/// applied to each name.
pub open spec fn renamed_fields(rule: Option<RenameRule>, fs: Seq<(Seq<char>, TypeDescModel)>)
    -> Seq<(Seq<char>, TypeDescModel)> {
    match rule {
        Some(r) => Seq::new(fs.len(), |i: int| (renamed(r, fs[i].0), fs[i].1)),
        None => fs,
    }
}

/// Builds a named struct descriptor, applying a rename rule to every
/// field name the way a rename-all attribute does.
#[verifier::loop_isolation(false)]
pub fn struct_desc(name: &str, rule: Option<RenameRule>, fields: Vec<(String, TypeDesc)>) -> (r:
    TypeDesc)
    ensures
        r@ == (TypeDescModel::Struct {
            name: name@,
            fields: renamed_fields(rule, td_fields_model(fields@)),
        }),
{
    let ghost fs0 = td_fields_model(fields@);
    proof {
        crate::schema::lemma_td_fields_model(fields@);
    }
    match rule {
        None => TypeDesc::Struct { name: name.to_owned(), fields },
        Some(rl) => {
            let ghost vec0 = fields@;
            let mut src = fields;
            let mut out: Vec<(String, TypeDesc)> = Vec::new();
            while src.len() > 0
                invariant
                    src@.len() + out@.len() == vec0.len(),
                    src@ =~= vec0.subrange(out@.len() as int, vec0.len() as int),
                    forall|j: int|
                        0 <= j < out@.len() ==> (#[trigger] out@[j]).0@ == renamed(
                            rl,
                            vec0[j].0@,
                        ) && out@[j].1 == vec0[j].1,
                decreases src.len(),
            {
                let ghost done = out@.len() as int;
                let ghost src_vec_pre = src@;
                let (fname, fty) = src.remove(0);
                proof {
                    assert(src@ =~= vec0.subrange(done + 1, vec0.len() as int));
                    assert((fname, fty) == vec0[done]);
                }
                let new_name = apply_rename(rl, fname.as_str());
                out.push((new_name, fty));
            }
            proof {
                crate::schema::lemma_td_fields_model(out@);
                assert forall|j: int|
                    0 <= j < fs0.len() implies td_fields_model(out@)[j] == (
                renamed(rl, fs0[j].0), fs0[j].1) by {
                    assert(td_fields_model(out@)[j] == (out@[j].0@, out@[j].1@));
                    assert(fs0[j] == (vec0[j].0@, vec0[j].1@));
                    assert(out@[j].0@ == renamed(rl, vec0[j].0@));
                    assert(out@[j].1 == vec0[j].1);
                }
                assert(td_fields_model(out@) =~= renamed_fields(Some(rl), fs0));
            }
            TypeDesc::Struct { name: name.to_owned(), fields: out }
        },
    }
}

} // verus!
