//! The environment capability: a named-variable store that the evaluator
//! reads, and that assign-default expressions write back into, together with
//! the process-identifier source.
//!
//! [`FakeEnv`] is an in-memory mapping for tests and embedding, fully
//! described by its model. [`ProcessEnv`] reads and writes the real process
//! environment through an outside crate; what the process environment holds
//! cannot be known to a proof, so its model makes no claim — its
//! [`Enviroment::reliable`] is false — and every contract conditioned on a
//! reliable model is vacuous there.

use vstd::prelude::*;

use crate::token::is_digit_char;

verus! {

/// The key-value capability the evaluator resolves references against.
///
/// `reliable` tells whether `model` and `pid_model` really describe the
/// store; contracts promise lookups and writes against the model only when
/// it does. An implementation over an outside store sets it false and
/// promises nothing.
pub trait Enviroment: Sized {
    /// Whether the model below truly describes this store.
    spec fn reliable(&self) -> bool;

    /// The mapping from variable names to values.
    spec fn model(&self) -> Map<Seq<char>, Seq<char>>;

    /// The process identifier, as decimal text.
    spec fn pid_model(&self) -> Seq<char>;

    /// Looks a variable up; `None` when it is unset.
    fn get(&self, key: &String) -> (r: Option<String>)
        ensures
            self.reliable() ==> (match r {
                Some(v) => self.model().contains_key(key@) && v@ == self.model()[key@],
                None => !self.model().contains_key(key@),
            }),
    ;

    /// Binds a variable to a value, replacing any earlier binding.
    fn set(&mut self, key: &String, value: &String)
        ensures
            final(self).reliable() == old(self).reliable(),
            final(self).pid_model() == old(self).pid_model(),
            old(self).reliable() ==> final(self).model() == old(self).model().insert(
                key@,
                value@,
            ),
    ;

    /// The current process identifier, rendered as decimal digits.
    fn pid(&self) -> (r: String)
        ensures
            self.reliable() ==> r@ == self.pid_model(),
    ;
}

/// The mapping described by an association list, later entries overriding
/// earlier ones.
pub open spec fn alist_model(s: Seq<(String, String)>) -> Map<Seq<char>, Seq<char>>
    decreases s.len(),
{
    if s.len() == 0 {
        Map::empty()
    } else {
        alist_model(s.drop_last()).insert(s.last().0@, s.last().1@)
    }
}

/// An in-memory environment for tests and embedding: a list of bindings and
/// a settable process identifier.
pub struct FakeEnv {
    pub entries: Vec<(String, String)>,
    pub pid: String,
}

/// Looks `key` up among the first `n` entries, preferring the latest.
fn alist_get(entries: &Vec<(String, String)>, key: &String, n: usize) -> (r: Option<String>)
    requires
        n <= entries@.len(),
    ensures
        (match r {
            Some(v) => alist_model(entries@.take(n as int)).contains_key(key@) && v@ == alist_model(
                entries@.take(n as int),
            )[key@],
            None => !alist_model(entries@.take(n as int)).contains_key(key@),
        }),
    decreases n,
{
    if n == 0 {
        proof {
            assert(entries@.take(0) =~= Seq::empty());
        }
        None
    } else {
        proof {
            assert(entries@.take(n as int).drop_last() =~= entries@.take(n as int - 1));
            assert(entries@.take(n as int).last() == entries@[n as int - 1]);
        }
        if entries[n - 1].0 == *key {
            Some(entries[n - 1].1.clone())
        } else {
            alist_get(entries, key, n - 1)
        }
    }
}

impl Enviroment for FakeEnv {
    open spec fn reliable(&self) -> bool {
        true
    }

    open spec fn model(&self) -> Map<Seq<char>, Seq<char>> {
        alist_model(self.entries@)
    }

    open spec fn pid_model(&self) -> Seq<char> {
        self.pid@
    }

    fn get(&self, key: &String) -> (r: Option<String>) {
        proof {
            assert(self.entries@.take(self.entries@.len() as int) =~= self.entries@);
        }
        alist_get(&self.entries, key, self.entries.len())
    }

    fn set(&mut self, key: &String, value: &String) {
        let ghost before = self.entries@;
        self.entries.push((key.clone(), value.clone()));
        proof {
            assert(self.entries@.drop_last() =~= before);
            assert(self.entries@.last() == (*key, *value));
        }
    }

    fn pid(&self) -> (r: String) {
        self.pid.clone()
    }
}

impl FakeEnv {
    /// An environment with no bindings and process identifier `0`.
    pub fn empty() -> (r: FakeEnv)
        ensures
            r.reliable(),
            r.model() == Map::<Seq<char>, Seq<char>>::empty(),
            r.pid_model() == "0"@,
    {
        FakeEnv { entries: Vec::new(), pid: "0".to_owned() }
    }

    /// This environment with one more binding.
    pub fn with(self, key: &str, value: &str) -> (r: FakeEnv)
        ensures
            r.reliable(),
            r.model() == self.model().insert(key@, value@),
            r.pid_model() == self.pid_model(),
    {
        let ghost before = self.entries@;
        let mut entries = self.entries;
        entries.push((key.to_owned(), value.to_owned()));
        proof {
            assert(entries@.drop_last() =~= before);
        }
        FakeEnv { entries, pid: self.pid }
    }

    /// This environment with its process identifier replaced.
    pub fn with_pid(self, pid: &str) -> (r: FakeEnv)
        ensures
            r.reliable(),
            r.model() == self.model(),
            r.pid_model() == pid@,
    {
        FakeEnv { entries: self.entries, pid: pid.to_owned() }
    }
}

impl Default for FakeEnv {
    /// An environment with no bindings and process identifier `0`.
    fn default() -> (r: FakeEnv)
        ensures
            r.reliable(),
            r.model() == Map::<Seq<char>, Seq<char>>::empty(),
            r.pid_model() == "0"@,
    {
        FakeEnv::empty()
    }
}

/// Relies on envmnt::exists: tells whether the process environment defines
/// the variable. The underlying read panics on an empty name or one holding
/// `=` or the NUL character, so those are excluded.
#[verifier::external_body]
fn process_var_exists(key: &String) -> (r: bool)
    requires
        usable_key(key@),
{
    envmnt::exists(key.as_str())
}

/// Relies on envmnt::get_or: reads a process environment variable, handing
/// back the empty string when it is unset. The underlying read panics on an
/// empty name or one holding `=` or the NUL character, so those are
/// excluded.
#[verifier::external_body]
fn process_var_or_empty(key: &String) -> (r: String)
    requires
        usable_key(key@),
{
    envmnt::get_or(key.as_str(), "")
}

/// Relies on envmnt::set: binds a process environment variable. The
/// underlying write panics on an empty name, a name holding `=` or NUL, or
/// a value holding NUL, so those are excluded.
#[verifier::external_body]
fn process_var_set(key: &String, value: &String)
    requires
        usable_key(key@),
        usable_value(value@),
{
    envmnt::set(key.as_str(), value.as_str())
}

/// Relies on nix::unistd::getpid: the identifier of the calling process.
/// It cannot fail and never panics; nothing can be promised of its value.
#[verifier::external_body]
fn process_id_raw() -> (r: i64)
{
    nix::unistd::getpid().as_raw() as i64
}

/// A name the process environment can be asked about without panicking.
pub open spec fn usable_key(s: Seq<char>) -> bool {
    s.len() > 0 && forall|k: int| 0 <= k < s.len() ==> (s[k] != '=' && s[k] != '\0')
}

/// A value the process environment can store without panicking.
pub open spec fn usable_value(s: Seq<char>) -> bool {
    forall|k: int| 0 <= k < s.len() ==> s[k] != '\0'
}

/// Whether every character from `i` on is allowed in a variable name that
/// the process environment is asked about.
fn key_chars_usable(s: &str, i: usize) -> (r: bool)
    requires
        i <= s@.len(),
    ensures
        r == forall|k: int| i <= k < s@.len() ==> (s@[k] != '=' && s@[k] != '\0'),
    decreases s@.len() - i,
{
    let n = s.unicode_len();
    if i < n {
        let c = s.get_char(i);
        if c == '=' || c == '\0' {
            false
        } else {
            key_chars_usable(s, i + 1)
        }
    } else {
        true
    }
}

/// Whether every character from `i` on is allowed in a stored value.
fn value_chars_usable(s: &str, i: usize) -> (r: bool)
    requires
        i <= s@.len(),
    ensures
        r == forall|k: int| i <= k < s@.len() ==> s@[k] != '\0',
    decreases s@.len() - i,
{
    let n = s.unicode_len();
    if i < n {
        let c = s.get_char(i);
        if c == '\0' {
            false
        } else {
            value_chars_usable(s, i + 1)
        }
    } else {
        true
    }
}

/// The decimal rendering of a digit.
pub open spec fn digit_to_char(d: int) -> char {
    if d == 0 {
        '0'
    } else if d == 1 {
        '1'
    } else if d == 2 {
        '2'
    } else if d == 3 {
        '3'
    } else if d == 4 {
        '4'
    } else if d == 5 {
        '5'
    } else if d == 6 {
        '6'
    } else if d == 7 {
        '7'
    } else if d == 8 {
        '8'
    } else {
        '9'
    }
}

/// The decimal rendering of a non-negative number, most significant digit
/// first.
pub open spec fn dec_digits(n: int) -> Seq<char>
    decreases n,
{
    if n < 10 {
        seq![digit_to_char(n)]
    } else {
        dec_digits(n / 10).push(digit_to_char(n % 10))
    }
}

/// Relies on String::push: appends one character to the string.
#[verifier::external_body]
fn push_char(s: &mut String, c: char)
    ensures
        final(s)@ == old(s)@.push(c),
{
    s.push(c)
}

/// Exec mirror of [`digit_to_char`].
fn digit_char_of(d: u64) -> (c: char)
    requires
        d < 10,
    ensures
        c == digit_to_char(d as int),
{
    if d == 0 {
        '0'
    } else if d == 1 {
        '1'
    } else if d == 2 {
        '2'
    } else if d == 3 {
        '3'
    } else if d == 4 {
        '4'
    } else if d == 5 {
        '5'
    } else if d == 6 {
        '6'
    } else if d == 7 {
        '7'
    } else if d == 8 {
        '8'
    } else {
        '9'
    }
}

/// Renders a number as decimal text.
fn decimal_string(n: u64) -> (r: String)
    ensures
        r@ == dec_digits(n as int),
    decreases n,
{
    if n < 10 {
        let mut s = String::new();
        push_char(&mut s, digit_char_of(n));
        proof {
            assert(s@ =~= seq![digit_to_char(n as int)]);
        }
        s
    } else {
        let mut s = decimal_string(n / 10);
        push_char(&mut s, digit_char_of(n % 10));
        s
    }
}

/// The real process environment. What it holds depends on the world outside
/// the program, so its model claims nothing: every contract conditioned on
/// [`Enviroment::reliable`] is vacuously met.
pub struct ProcessEnv;

impl Enviroment for ProcessEnv {
    open spec fn reliable(&self) -> bool {
        false
    }

    open spec fn model(&self) -> Map<Seq<char>, Seq<char>> {
        Map::empty()
    }

    open spec fn pid_model(&self) -> Seq<char> {
        Seq::empty()
    }

    fn get(&self, key: &String) -> (r: Option<String>) {
        let n = key.as_str().unicode_len();
        if n == 0 {
            None
        } else if !key_chars_usable(key.as_str(), 0) {
            None
        } else if process_var_exists(key) {
            Some(process_var_or_empty(key))
        } else {
            None
        }
    }

    fn set(&mut self, key: &String, value: &String) {
        let n = key.as_str().unicode_len();
        if n > 0 && key_chars_usable(key.as_str(), 0) && value_chars_usable(value.as_str(), 0) {
            process_var_set(key, value);
        }
    }

    fn pid(&self) -> (r: String) {
        let raw = process_id_raw();
        let value: u64 = if raw < 0 {
            0
        } else {
            raw as u64
        };
        decimal_string(value)
    }
}

} // verus!
