//! Named list entries: a signal or an element with the name it is listed
//! under, and the default name given to a new entry.

use vstd::prelude::*;

verus! {

/// The decimal digit for `d < 10`.
pub open spec fn digit_char(d: nat) -> char {
    if d == 0 { '0' }
    else if d == 1 { '1' }
    else if d == 2 { '2' }
    else if d == 3 { '3' }
    else if d == 4 { '4' }
    else if d == 5 { '5' }
    else if d == 6 { '6' }
    else if d == 7 { '7' }
    else if d == 8 { '8' }
    else { '9' }
}

/// The decimal representation of `n`, without leading zeros.
pub open spec fn decimal(n: nat) -> Seq<char>
    decreases n,
{
    if n < 10 {
        seq![digit_char(n)]
    } else {
        decimal(n / 10).push(digit_char(n % 10))
    }
}

/// The name proposed for a new entry of variant `ident` added to a list
/// that already holds `existing` entries: the identifier, a dash, and the
/// entry's one-based position.
pub open spec fn entry_name(ident: Seq<char>, existing: nat) -> Seq<char> {
    ident.push('-') + decimal(existing + 1)
}

/// Relies on `String::push`: appends one character.
#[verifier::external_body]
fn push_char(s: &mut String, c: char)
    ensures
        final(s)@ == old(s)@.push(c),
{
    s.push(c)
}

/// The decimal digit for `d < 10`.
fn digit(d: usize) -> (c: char)
    requires
        d < 10,
    ensures
        c == digit_char(d as nat),
{
    if d == 0 { '0' }
    else if d == 1 { '1' }
    else if d == 2 { '2' }
    else if d == 3 { '3' }
    else if d == 4 { '4' }
    else if d == 5 { '5' }
    else if d == 6 { '6' }
    else if d == 7 { '7' }
    else if d == 8 { '8' }
    else { '9' }
}

/// The digits of `n`, least significant first.
fn reversed_digits(n: usize) -> (r: Vec<char>)
    ensures
        r@.reverse() == decimal(n as nat),
    decreases n,
{
    let mut r: Vec<char> = Vec::new();
    r.push(digit(n % 10));
    if n >= 10 {
        let rest = reversed_digits(n / 10);
        let mut i: usize = 0;
        while i < rest.len()
            invariant
                i <= rest@.len(),
                r@ == seq![digit_char((n % 10) as nat)] + rest@.subrange(0, i as int),
            decreases rest@.len() - i,
        {
            r.push(rest[i]);
            i = i + 1;
            assert(r@ =~= seq![digit_char((n % 10) as nat)] + rest@.subrange(0, i as int));
        }
        proof {
            assert(rest@.subrange(0, rest@.len() as int) =~= rest@);
            assert(r@.reverse() =~= rest@.reverse().push(digit_char((n % 10) as nat)));
        }
    } else {
        assert(r@.reverse() =~= seq![digit_char(n as nat)]);
    }
    r
}

/// The name proposed for a new entry of variant `ident` added to a list
/// that already holds `existing` entries, for instance `PT1-3` for the third
/// element.
pub fn next_entry_name(ident: &str, existing: usize) -> (r: String)
    requires
        existing < usize::MAX,
    ensures
        r@ == entry_name(ident@, existing as nat),
{
    let mut r = ident.to_owned();
    push_char(&mut r, '-');
    let digits = reversed_digits(existing + 1);
    let ghost base = r@;
    let mut i: usize = digits.len();
    while i > 0
        invariant
            i <= digits@.len(),
            r@ == base + digits@.subrange(i as int, digits@.len() as int).reverse(),
        decreases i,
    {
        i = i - 1;
        push_char(&mut r, digits[i]);
        assert(digits@.subrange(i as int, digits@.len() as int).reverse() =~= digits@.subrange(
            i as int + 1,
            digits@.len() as int,
        ).reverse().push(digits@[i as int]));
    }
    assert(digits@.subrange(0, digits@.len() as int) =~= digits@);
    r
}

/// A time signal together with the name it is listed under.
pub struct NamedTimeSignal<S> {
    pub name: String,
    pub signal: S,
}

impl<S> NamedTimeSignal<S> {
    /// The same signal under the name `name`.
    pub fn set_name(self, name: String) -> (r: Self)
        ensures
            r.name@ == name@,
            r.signal == self.signal,
    {
        NamedTimeSignal { name, signal: self.signal }
    }

    /// The same name for the signal `signal`.
    pub fn set_signal(self, signal: S) -> (r: Self)
        ensures
            r.name@ == self.name@,
            r.signal == signal,
    {
        NamedTimeSignal { name: self.name, signal }
    }
}

/// A transfer element together with the name it is listed under.
pub struct NamedElement<E> {
    pub name: String,
    pub element: E,
}

impl<E> NamedElement<E> {
    /// The same element under the name `name`.
    pub fn set_name(self, name: String) -> (r: Self)
        ensures
            r.name@ == name@,
            r.element == self.element,
    {
        NamedElement { name, element: self.element }
    }

    /// The same name for the element `element`.
    pub fn set_element(self, element: E) -> (r: Self)
        ensures
            r.name@ == self.name@,
            r.element == element,
    {
        NamedElement { name: self.name, element }
    }
}

} // verus!
