//! The URL recognizer: an outside character-driven state machine, wrapped so
//! that its reports are a function of the characters fed since creation.

use vstd::prelude::*;

verus! {

/// State reported by the URL recognizer after a character step: inside a
/// matched URL (with its length and the count of trailing characters judged
/// not part of it), inside a possible scheme prefix, or reset.
#[derive(Clone, Copy, Debug, PartialEq, Eq, Structural)]
pub enum LocationState {
    Url(u16, u16),
    Scheme,
    Reset,
}

/// What the recognizer reports after being fed exactly the characters `fed`,
/// in order, from a fresh start. The recognizer advances one deterministic
/// step per character, so its report is a function of that sequence alone;
/// its grammar stays opaque to this crate.
pub uninterp spec fn locate(fed: Seq<char>) -> LocationState;

/// Number of characters of `fed` that open a parenthesis or bracket group.
/// The recognizer counts such characters in narrow counters, so the scanner
/// keeps this number small.
pub open spec fn count_opens(fed: Seq<char>) -> int
    decreases fed.len(),
{
    if fed.len() == 0 {
        0
    } else {
        count_opens(fed.drop_last()) + if fed.last() == '(' || fed.last() == '[' {
            1int
        } else {
            0int
        }
    }
}

/// One where a character opens a parenthesis or bracket group, else zero.
pub open spec fn open_add(c: char) -> int {
    if c == '(' || c == '[' {
        1
    } else {
        0
    }
}

/// Feeding one character grows the open-group count by that character's
/// contribution.
pub proof fn lemma_count_opens_push(s: Seq<char>, c: char)
    ensures
        count_opens(s.push(c)) == count_opens(s) + open_add(c),
{
    assert(s.push(c).drop_last() =~= s);
    assert(s.push(c).last() == c);
}

/// No more characters open a group than were fed.
pub proof fn lemma_count_opens_le_len(s: Seq<char>)
    ensures
        0 <= count_opens(s) <= s.len(),
    decreases s.len(),
{
    if s.len() > 0 {
        lemma_count_opens_le_len(s.drop_last());
    }
}

#[verifier::external_type_specification]
#[verifier::external_body]
pub struct ExUrlLocator(urlocator::UrlLocator);

/// Relies on urlocator::UrlLocator::new: building a recognizer has no effect
/// this crate's contracts speak about; the history it pairs with starts empty.
#[verifier::external_body]
fn raw_new() -> (r: urlocator::UrlLocator) {
    urlocator::UrlLocator::new()
}

/// The outside recognizer together with the history of characters fed to it.
pub(crate) struct Locator {
    inner: urlocator::UrlLocator,
    fed: Ghost<Seq<char>>,
}

impl Locator {
    /// The characters fed since this recognizer was created.
    pub(crate) closed spec fn fed(&self) -> Seq<char> {
        self.fed@
    }

    /// A fresh recognizer that has seen no characters.
    pub(crate) fn new() -> (r: Locator)
        ensures
            r.fed() == Seq::<char>::empty(),
    {
        Locator { inner: raw_new(), fed: Ghost(Seq::empty()) }
    }

    /// Relies on urlocator::UrlLocator::advance: one deterministic step of
    /// the recognizer's state machine, whose report depends only on the
    /// characters fed so far. The bounds keep the recognizer's internal
    /// u16 length and u8 group counters below their limits.
    #[verifier::external_body]
    pub(crate) fn advance(&mut self, c: char) -> (r: LocationState)
        requires
            old(self).fed().len() < 65535,
            count_opens(old(self).fed().push(c)) < 255,
        ensures
            final(self).fed() == old(self).fed().push(c),
            r == locate(final(self).fed()),
    {
        match self.inner.advance(c) {
            urlocator::UrlLocation::Url(length, end_offset) => LocationState::Url(
                length,
                end_offset,
            ),
            urlocator::UrlLocation::Scheme => LocationState::Scheme,
            urlocator::UrlLocation::Reset => LocationState::Reset,
        }
    }
}

} // verus!
