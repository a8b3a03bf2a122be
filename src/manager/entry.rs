//! One credential record and the reading of its password argument.

use vstd::prelude::*;
use vstd::utf8::{decode_utf8, encode_utf8, valid_utf8};

use crate::generator::{alphabet, generate_pw};
use crate::manager::fold::{lowercase, same_name};

verus! {

broadcast use vstd::utf8::group_utf8_lib;

/// One credential record.
#[derive(Debug, Clone, PartialEq, Eq)]
pub struct Entry {
    /// Display name, kept with the casing it was given.
    pub name: String,
    pub username: String,
    /// The secret, as the UTF-8 bytes of the text it was made from.
    pub password: Vec<u8>,
    /// Free-text context, such as the address of a web site.
    pub location: String,
    /// Notes in the order they were added.
    pub notes: Vec<String>,
}

/// What an entry holds, as plain values.
pub struct EntryView {
    pub name: Seq<char>,
    pub username: Seq<char>,
    pub password: Seq<u8>,
    pub location: Seq<char>,
    pub notes: Seq<Seq<char>>,
}

/// The texts of a list of notes.
pub open spec fn notes_view(notes: Seq<String>) -> Seq<Seq<char>> {
    notes.map_values(|n: String| n@)
}

impl View for Entry {
    type V = EntryView;

    open spec fn view(&self) -> EntryView {
        EntryView {
            name: self.name@,
            username: self.username@,
            password: self.password@,
            location: self.location@,
            notes: notes_view(self.notes@),
        }
    }
}

/// How the password given to [`Entry::new`] is to be read.
#[derive(Debug, Clone, Copy, PartialEq, Eq)]
pub enum PasswordRequest {
    /// The text is the password itself.
    Literal,
    /// The text asks for a generated password of `length` characters.
    Generate { length: u32, numbers: bool, special: bool },
    /// The text asks for a generated password but gives no length that fits a `u32`.
    BadLength,
}

/// Whether `c` is one of the ASCII digits.
pub open spec fn is_digit(c: char) -> bool {
    '0' <= c <= '9'
}

/// The digits of `s`, in order, with everything else left out.
pub open spec fn digits_in(s: Seq<char>) -> Seq<char>
    decreases s.len(),
{
    if s.len() == 0 {
        s
    } else if is_digit(s.last()) {
        digits_in(s.drop_last()).push(s.last())
    } else {
        digits_in(s.drop_last())
    }
}

/// The number that a sequence of digits writes in decimal.
pub open spec fn decimal_value(ds: Seq<char>) -> nat
    decreases ds.len(),
{
    if ds.len() == 0 {
        0
    } else {
        decimal_value(ds.drop_last()) * 10 + (ds.last() as u32 - '0' as u32) as nat
    }
}

/// Whether `p` starts with the request marker `!gen`.
pub open spec fn is_gen_request(p: Seq<char>) -> bool {
    p.len() >= 4 && p.take(4) == seq!['!', 'g', 'e', 'n']
}

/// Whether `p` holds the option `-c`: a hyphen directly followed by `c`.
pub open spec fn has_option(p: Seq<char>, c: char) -> bool {
    exists|i: int| 0 <= i && i + 1 < p.len() && p[i] == '-' && #[trigger] p[i + 1] == c
}

/// How the password text `p` is to be read. A request is `!gen` followed by
/// text whose digits, taken together, give the length; `-n` in it leaves the
/// digits out of the alphabet and `-s` the punctuation.
pub open spec fn password_request(p: Seq<char>) -> PasswordRequest {
    let ds = digits_in(p.skip(4));
    if !is_gen_request(p) {
        PasswordRequest::Literal
    } else if ds.len() == 0 || decimal_value(ds) > u32::MAX {
        PasswordRequest::BadLength
    } else {
        PasswordRequest::Generate {
            length: decimal_value(ds) as u32,
            numbers: !has_option(p, 'n'),
            special: !has_option(p, 's'),
        }
    }
}

proof fn lemma_digits_step(p: Seq<char>, i: int)
    requires
        4 <= i < p.len(),
    ensures
        digits_in(p.subrange(4, i + 1)) == if is_digit(p[i]) {
            digits_in(p.subrange(4, i)).push(p[i])
        } else {
            digits_in(p.subrange(4, i))
        },
{
    assert(p.subrange(4, i + 1).drop_last() =~= p.subrange(4, i));
}

proof fn lemma_decimal_push(ds: Seq<char>, c: char)
    ensures
        decimal_value(ds.push(c)) == decimal_value(ds) * 10 + (c as u32 - '0' as u32) as nat,
{
    assert(ds.push(c).drop_last() =~= ds);
}

/// Whether `password` holds the option `-flag`.
fn has_option_in(password: &str, flag: char) -> (r: bool)
    ensures
        r == has_option(password@, flag),
{
    let n = password.unicode_len();
    let mut i: usize = 0;
    while i < n
        invariant
            n == password@.len(),
            i <= n,
            forall|j: int|
                0 <= j < i && j + 1 < n ==> !(password@[j] == '-' && #[trigger] password@[j + 1]
                    == flag),
        decreases n - i,
    {
        if i + 1 < n && password.get_char(i) == '-' && password.get_char(i + 1) == flag {
            return true;
        }
        i += 1;
    }
    false
}

/// Reads the password text given to [`Entry::new`].
pub fn read_password_request(password: &str) -> (r: PasswordRequest)
    ensures
        r == password_request(password@),
{
    let n = password.unicode_len();
    if n < 4 || password.get_char(0) != '!' || password.get_char(1) != 'g' || password.get_char(2)
        != 'e' || password.get_char(3) != 'n' {
        proof {
            if n >= 4 {
                assert(password@.take(4)[0] == password@[0]);
                assert(password@.take(4)[1] == password@[1]);
                assert(password@.take(4)[2] == password@[2]);
                assert(password@.take(4)[3] == password@[3]);
            }
        }
        return PasswordRequest::Literal;
    }
    assert(password@.take(4) =~= seq!['!', 'g', 'e', 'n']);
    let ghost p = password@;
    let mut value: u64 = 0;
    let mut seen = false;
    let mut over = false;
    let mut i: usize = 4;
    while i < n
        invariant
            n == p.len(),
            p == password@,
            4 <= i <= n,
            seen == (digits_in(p.subrange(4, i as int)).len() > 0),
            over ==> decimal_value(digits_in(p.subrange(4, i as int))) > u32::MAX,
            !over ==> value == decimal_value(digits_in(p.subrange(4, i as int))) && value
                <= u32::MAX,
        decreases n - i,
    {
        let c = password.get_char(i);
        proof {
            lemma_digits_step(p, i as int);
            lemma_decimal_push(digits_in(p.subrange(4, i as int)), c);
        }
        if '0' <= c && c <= '9' {
            seen = true;
            if !over {
                value = value * 10 + (c as u64 - '0' as u64);
                if value > u32::MAX as u64 {
                    over = true;
                }
            }
        }
        i += 1;
    }
    assert(p.subrange(4, n as int) =~= p.skip(4));
    if !seen || over {
        return PasswordRequest::BadLength;
    }
    PasswordRequest::Generate {
        length: value as u32,
        numbers: !has_option_in(password, 'n'),
        special: !has_option_in(password, 's'),
    }
}

/// Relies on `String::from_utf8`: it succeeds exactly on valid UTF-8, and the
/// string it returns holds the characters those bytes encode.
#[verifier::external_body]
fn string_from_utf8(bytes: Vec<u8>) -> (r: Option<String>)
    ensures
        r is Some <==> valid_utf8(bytes@),
        r is Some ==> r->0@ == decode_utf8(bytes@),
{
    String::from_utf8(bytes).ok()
}

impl Entry {
    /// A new entry without notes. Where `password` is a request such as
    /// `!gen16 -s`, the secret is a generated password of that length;
    /// otherwise it is `password` itself. A request must give a length that
    /// fits a `u32`.
    pub fn new(name: String, location: String, username: String, password: String) -> (r: Self)
        requires
            !(password_request(password@) is BadLength),
        ensures
            r.name == name,
            r.location == location,
            r.username == username,
            r.notes@.len() == 0,
            password_request(password@) is Literal ==> r.password@ == encode_utf8(password@),
            password_request(password@) matches PasswordRequest::Generate {
                length,
                numbers,
                special,
            } ==> exists|g: Seq<char>|
                {
                    &&& r.password@ == encode_utf8(g)
                    &&& g.len() == length
                    &&& forall|i: int|
                        0 <= i < g.len() ==> alphabet(numbers, special).contains(#[trigger] g[i])
                },
    {
        let text = match read_password_request(password.as_str()) {
            PasswordRequest::Generate { length, numbers, special } => generate_pw(
                length,
                numbers,
                special,
            ),
            _ => password,
        };
        let password = Self::hide_password(text);
        Entry { name, username, password, location, notes: Vec::new() }
    }

    fn hide_password(password: String) -> (r: Vec<u8>)
        ensures
            r@ == encode_utf8(password@),
    {
        password.as_str().as_bytes_vec()
    }

    /// The secret as text.
    pub fn show_password(&self) -> (r: String)
        requires
            valid_utf8(self.password@),
        ensures
            r@ == decode_utf8(self.password@),
    {
        string_from_utf8(self.password.clone()).unwrap()
    }

    /// Whether the secret is valid UTF-8, so that it can be shown as text.
    pub fn has_text_password(&self) -> (r: bool)
        ensures
            r == valid_utf8(self.password@),
    {
        string_from_utf8(self.password.clone()).is_some()
    }

    /// A copy of this entry.
    pub fn duplicate(&self) -> (r: Entry)
        ensures
            r@ == self@,
    {
        let notes = self.notes.clone();
        assert(notes_view(notes@) =~= notes_view(self.notes@));
        Entry {
            name: self.name.clone(),
            username: self.username.clone(),
            password: self.password.clone(),
            location: self.location.clone(),
            notes,
        }
    }

    /// Whether this entry answers to `name`, compared without regard to case.
    pub fn is_named(&self, name: &str) -> (r: bool)
        ensures
            r == same_name(self.name@, name@),
    {
        let own = lowercase(self.name.as_str());
        let other = lowercase(name);
        own == other
    }
}

} // verus!
