//! The description of a class that is declared to the host once, at load time:
//! its name and the messages its instances answer, each under a selector.

use vstd::prelude::*;
use vstd::utf8::encode_utf8;

verus! {

/// The argument shape of a message the host delivers.
#[derive(Clone, Copy, Debug, PartialEq, Eq, Structural)]
pub enum MessageKind {
    /// A trigger with no argument.
    Bang,
    /// One integer argument.
    Int,
}

/// Why a method could not be added to a class.
#[derive(Clone, Copy, Debug, PartialEq, Eq, Structural)]
pub enum RegistrationError {
    /// The class already answers a message under this selector.
    DuplicateSelector,
}

/// One message a class answers.
pub struct MethodEntry {
    selector: String,
    kind: MessageKind,
}

/// A class as declared to the host: its name and its message table.
pub struct Class {
    name: String,
    methods: Vec<MethodEntry>,
}

/// The selector of a bang message.
pub const BANG_SELECTOR: &'static str = "bang";

/// Whether some entry of `entries` has the selector `sel`.
pub open spec fn has_selector(entries: Seq<(Seq<char>, MessageKind)>, sel: Seq<char>) -> bool {
    exists|i: int| 0 <= i < entries.len() && entries[i].0 == sel
}

/// No two entries of `entries` share a selector.
pub open spec fn unique_selectors(entries: Seq<(Seq<char>, MessageKind)>) -> bool {
    forall|i: int, j: int|
        0 <= i < entries.len() && 0 <= j < entries.len() && entries[i].0 == entries[j].0 ==> i
            == j
}

/// Whether two texts are the same, compared through their UTF-8 bytes.
fn same_text(a: &str, b: &str) -> (r: bool)
    ensures
        r == (a@ == b@),
{
    let x = a.as_bytes();
    let y = b.as_bytes();
    proof {
        vstd::utf8::encode_utf8_decode_utf8(a@);
        vstd::utf8::encode_utf8_decode_utf8(b@);
    }
    if x.len() != y.len() {
        return false;
    }
    let mut i: usize = 0;
    while i < x.len()
        invariant
            x@ == encode_utf8(a@),
            y@ == encode_utf8(b@),
            x@.len() == y@.len(),
            i <= x@.len(),
            forall|j: int| 0 <= j < i ==> x@[j] == y@[j],
        decreases x@.len() - i,
    {
        if x[i] != y[i] {
            assert(x@ != y@);
            return false;
        }
        i = i + 1;
    }
    assert(x@ == y@);
    true
}

impl Class {
    /// The class's name, under which the host routes references to it.
    pub closed spec fn name(&self) -> Seq<char> {
        self.name@
    }

    /// The message table: each entry's selector and argument shape, in the
    /// order they were added.
    pub closed spec fn entries(&self) -> Seq<(Seq<char>, MessageKind)> {
        self.methods@.map_values(|m: MethodEntry| (m.selector@, m.kind))
    }

    /// A class named `name` that answers no message yet.
    pub fn new(name: &str) -> (r: Self)
        ensures
            r.name() == name@,
            r.entries() == Seq::<(Seq<char>, MessageKind)>::empty(),
    {
        let r = Class { name: name.to_owned(), methods: Vec::new() };
        assert(r.entries() =~= Seq::<(Seq<char>, MessageKind)>::empty());
        r
    }

    /// The class's name.
    pub fn class_name(&self) -> (r: &str)
        ensures
            r@ == self.name(),
    {
        self.name.as_str()
    }

    /// The number of messages the class answers.
    pub fn len(&self) -> (r: usize)
        ensures
            r == self.entries().len(),
    {
        self.methods.len()
    }

    /// Declare that instances answer `selector` with a message of shape `kind`.
    /// A selector can be declared once.
    pub fn add_method(&mut self, selector: &str, kind: MessageKind) -> (r: Result<
        (),
        RegistrationError,
    >)
        requires
            unique_selectors(old(self).entries()),
        ensures
            unique_selectors(final(self).entries()),
            final(self).name() == old(self).name(),
            r is Ok <==> !has_selector(old(self).entries(), selector@),
            r is Ok ==> final(self).entries() == old(self).entries().push((selector@, kind)),
            r matches Err(e) ==> e == RegistrationError::DuplicateSelector && final(self).entries()
                == old(self).entries(),
    {
        match self.index_of(selector) {
            Some(_) => Err(RegistrationError::DuplicateSelector),
            None => {
                let ghost before = self.entries();
                self.methods.push(MethodEntry { selector: selector.to_owned(), kind });
                assert(self.entries() =~= before.push((selector@, kind)));
                Ok(())
            },
        }
    }

    /// Declare an integer message under `selector`.
    pub fn add_method_int(&mut self, selector: &str) -> (r: Result<(), RegistrationError>)
        requires
            unique_selectors(old(self).entries()),
        ensures
            unique_selectors(final(self).entries()),
            final(self).name() == old(self).name(),
            r is Ok <==> !has_selector(old(self).entries(), selector@),
            r is Ok ==> final(self).entries() == old(self).entries().push(
                (selector@, MessageKind::Int),
            ),
            r is Err ==> final(self).entries() == old(self).entries(),
    {
        self.add_method(selector, MessageKind::Int)
    }

    /// Declare the bang message.
    pub fn add_method_bang(&mut self) -> (r: Result<(), RegistrationError>)
        requires
            unique_selectors(old(self).entries()),
        ensures
            unique_selectors(final(self).entries()),
            final(self).name() == old(self).name(),
            r is Ok <==> !has_selector(old(self).entries(), BANG_SELECTOR@),
            r is Ok ==> final(self).entries() == old(self).entries().push(
                (BANG_SELECTOR@, MessageKind::Bang),
            ),
            r is Err ==> final(self).entries() == old(self).entries(),
    {
        self.add_method(BANG_SELECTOR, MessageKind::Bang)
    }

    /// The position of `selector` in the message table, if it is there.
    fn index_of(&self, selector: &str) -> (r: Option<usize>)
        ensures
            r matches Some(i) ==> i < self.entries().len() && self.entries()[i as int].0
                == selector@,
            r is None ==> !has_selector(self.entries(), selector@),
    {
        let mut i: usize = 0;
        while i < self.methods.len()
            invariant
                i <= self.methods@.len(),
                forall|j: int| 0 <= j < i ==> self.entries()[j].0 != selector@,
            decreases self.methods@.len() - i,
        {
            if same_text(self.methods[i].selector.as_str(), selector) {
                return Some(i);
            }
            i = i + 1;
        }
        None
    }

    /// The shape of the message the class answers under `selector`, if any.
    pub fn lookup(&self, selector: &str) -> (r: Option<MessageKind>)
        ensures
            r matches Some(k) ==> exists|i: int|
                0 <= i < self.entries().len() && #[trigger] self.entries()[i] == (selector@, k),
            r is None <==> !has_selector(self.entries(), selector@),
    {
        match self.index_of(selector) {
            Some(i) => Some(self.methods[i].kind),
            None => None,
        }
    }

    /// The selector and shape of message `i`, in the order they were added.
    pub fn method(&self, i: usize) -> (r: (&str, MessageKind))
        requires
            i < self.entries().len(),
        ensures
            (r.0@, r.1) == self.entries()[i as int],
    {
        (self.methods[i].selector.as_str(), self.methods[i].kind)
    }
}

} // verus!
