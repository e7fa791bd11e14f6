//! Calling through a generic parameter and through a trait object.

use vstd::prelude::*;

verus! {

/// The number of bytes that `text` takes in UTF-8, as `str::len` gives it.
pub open spec fn byte_len(text: Seq<char>) -> usize {
    vstd::utf8::encode_utf8(text).len() as usize
}

/// Something that can be read as a text.
pub trait AsText {
    /// The text.
    spec fn text(&self) -> Seq<char>;

    /// The text.
    fn as_text(&self) -> (r: &str)
        ensures
            r@ == self.text(),
    ;
}

impl AsText for &str {
    open spec fn text(&self) -> Seq<char> {
        self@
    }

    fn as_text(&self) -> (r: &str) {
        *self
    }
}

impl AsText for String {
    open spec fn text(&self) -> Seq<char> {
        self@
    }

    fn as_text(&self) -> (r: &str) {
        self.as_str()
    }
}

/// The length in bytes of the text of `s`. The compiler makes one copy of this
/// function for each type it is called with.
pub fn strlen<S: AsText>(s: S) -> (r: usize)
    ensures
        r == byte_len(s.text()),
{
    s.as_text().len()
}

/// `Some` of what `f` returns if `b` holds, `None` otherwise. `f` is called
/// only if `b` holds.
pub fn bool_then<T, F: FnOnce() -> T>(b: bool, f: F) -> (r: Option<T>)
    requires
        b ==> call_requires(f, ()),
    ensures
        match r {
            Some(t) => b && call_ensures(f, (), t),
            None => !b,
        },
{
    if b {
        Some(f())
    } else {
        None
    }
}

/// Something that can greet.
pub trait Hello {
    /// The name to greet by.
    spec fn name(&self) -> Seq<char>;

    /// The greeting.
    fn hello(&self) -> (r: String)
        ensures
            r@ == greeting(self.name()),
    ;
}

/// The greeting for `name`.
pub open spec fn greeting(name: Seq<char>) -> Seq<char> {
    "hello "@ + name
}

/// Writes the greeting for `name`.
///
/// Calls `format!`, which puts the name behind the fixed text.
#[verifier::external_body]
fn greet(name: &str) -> (r: String)
    ensures
        r@ == greeting(name@),
{
    format!("hello {}", name)
}

impl Hello for &str {
    open spec fn name(&self) -> Seq<char> {
        self@
    }

    fn hello(&self) -> (r: String) {
        greet(self)
    }
}

impl Hello for String {
    open spec fn name(&self) -> Seq<char> {
        self@
    }

    fn hello(&self) -> (r: String) {
        greet(self.as_str())
    }
}

/// The greeting of `h`.
pub fn bar<H: Hello>(h: H) -> (r: String)
    ensures
        r@ == greeting(h.name()),
{
    h.hello()
}

/// The greetings of all in `s`, in their order.
pub fn vec_bar<H: Hello>(s: &[H]) -> (r: Vec<String>)
    ensures
        r@.len() == s@.len(),
        forall|i: int| 0 <= i < s@.len() ==> (#[trigger] r@[i])@ == greeting(s@[i].name()),
{
    let mut out: Vec<String> = Vec::new();
    let mut i: usize = 0;
    while i < s.len()
        invariant
            i <= s@.len(),
            out@.len() == i,
            forall|k: int| 0 <= k < i ==> (#[trigger] out@[k])@ == greeting(s@[k].name()),
        decreases s@.len() - i,
    {
        out.push(s[i].hello());
        i += 1;
    }
    out
}

/// The greeting of `s`, called through a trait object.
pub fn say_hello(s: &dyn Hello) -> (r: String)
    ensures
        r@ == greeting(s.name()),
{
    s.hello()
}

/// The length in bytes of the text of `s`, called through a trait object: one
/// copy of this function serves every type.
pub fn strlen_dyn(s: &dyn AsText) -> (r: usize)
    ensures
        r == byte_len(s.text()),
{
    s.as_text().len()
}

/// Something that can greet and be read as a text.
pub trait HelloAsRef: Hello + AsText {
}

impl HelloAsRef for &str {
}

impl HelloAsRef for String {
}

/// The greeting of `s` and the length in bytes of its text, both through the
/// one bound.
pub fn baz<S: HelloAsRef>(s: &S) -> (r: (String, usize))
    ensures
        r.0@ == greeting(s.name()),
        r.1 == byte_len(s.text()),
{
    let greeting = s.hello();
    let text = s.as_text();
    (greeting, text.len())
}

} // verus!
