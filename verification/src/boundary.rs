//! The boundary transfer layer: owned strings and lists of owned strings in
//! the shape they cross into another memory domain. A string that crosses
//! carries a terminating NUL, so only NUL-free text can be encoded; absence
//! ("no result") is a `None`, never an empty value, and an empty list is a
//! valid value of its own. A string read out of a list is borrowed from it,
//! so it cannot outlive — or be released apart from — the list that owns it.
use vstd::prelude::*;
use vstd::string::*;

use crate::nul_free;

verus! {

/// An owned string as it crosses the boundary: text that can carry a
/// C-style NUL terminator, so the text itself holds no NUL.
pub struct OwnedString {
    text: String,
}

impl View for OwnedString {
    type V = Seq<char>;

    closed spec fn view(&self) -> Seq<char> {
        self.text@
    }
}

impl DeepView for OwnedString {
    type V = Seq<char>;

    open spec fn deep_view(&self) -> Seq<char> {
        self@
    }
}

impl OwnedString {
    /// The text holds no NUL, so a terminator can be appended unambiguously.
    pub open spec fn wf(&self) -> bool {
        nul_free(self@)
    }

    /// Read-only view of the carried text.
    pub fn decode_string(&self) -> (r: &str)
        ensures
            r@ == self@,
    {
        self.text.as_str()
    }

    /// Hands the text back out of the boundary representation.
    pub fn into_text(self) -> (r: String)
        ensures
            r@ == self@,
    {
        self.text
    }
}

/// Encodes text for the boundary. Fails exactly when the text contains a
/// NUL, which could not be told apart from the terminator.
pub fn encode_string(text: &str) -> (r: Option<OwnedString>)
    ensures
        match r {
            Some(h) => h.wf() && h@ == text@ && nul_free(text@),
            None => !nul_free(text@),
        },
{
    let n = text.unicode_len();
    let mut i: usize = 0;
    while i < n
        invariant
            i <= n,
            n == text@.len(),
            forall|k: int| 0 <= k < i ==> text@[k] != '\0',
        decreases n - i,
    {
        if text.get_char(i) == '\0' {
            return None;
        }
        i = i + 1;
    }
    Some(OwnedString { text: text.to_owned() })
}

/// An ordered, index-addressable list of owned strings. The list owns every
/// contained string: they share its lifetime and are released with it as one
/// unit.
pub struct OwnedStringList {
    items: Vec<OwnedString>,
}

impl View for OwnedStringList {
    type V = Seq<Seq<char>>;

    closed spec fn view(&self) -> Seq<Seq<char>> {
        Seq::new(self.items@.len(), |i: int| self.items@[i]@)
    }
}

impl OwnedStringList {
    /// Every contained string is well-formed.
    pub open spec fn wf(&self) -> bool {
        forall|i: int| 0 <= i < self@.len() ==> nul_free(#[trigger] self@[i])
    }

    /// An empty list: a valid value, distinct from the absence of a list.
    pub fn new() -> (r: Self)
        ensures
            r@ == Seq::<Seq<char>>::empty(),
            r.wf(),
    {
        let r = OwnedStringList { items: Vec::new() };
        proof {
            assert(r@ =~= Seq::<Seq<char>>::empty());
        }
        r
    }

    /// Wraps already-encoded strings as a list that owns them.
    pub fn from_vec(vec: Vec<OwnedString>) -> (r: Self)
        ensures
            r@.len() == vec@.len(),
            forall|i: int| 0 <= i < vec@.len() ==> r@[i] == vec@[i]@,
    {
        OwnedStringList { items: vec }
    }

    /// The number of contained strings.
    pub fn length(&self) -> (r: usize)
        ensures
            r == self@.len(),
    {
        self.items.len()
    }

    /// The string at `index`, borrowed from the list: the caller of `get`
    /// never owns it, and it goes away with the list. Indexing past the end
    /// is a caller contract violation, ruled out here rather than recovered
    /// from.
    pub fn get(&self, index: usize) -> (r: &OwnedString)
        requires
            index < self@.len(),
        ensures
            r@ == self@[index as int],
            self.wf() ==> r.wf(),
    {
        &self.items[index]
    }
}

/// The subsequence of `s` that can be encoded: the entries free of NUL, in
/// order.
pub open spec fn encodable_of(s: Seq<Seq<char>>) -> Seq<Seq<char>>
    decreases s.len(),
{
    if s.len() == 0 {
        s
    } else if nul_free(s.last()) {
        encodable_of(s.drop_last()).push(s.last())
    } else {
        encodable_of(s.drop_last())
    }
}

/// Encodes a list of texts for the boundary, one owned string per entry that
/// can be encoded: an entry containing a NUL is left out. An empty or wholly
/// unencodable input yields the valid empty list, never an absent one.
pub fn encode_string_list(texts: &Vec<String>) -> (r: OwnedStringList)
    ensures
        r@ == encodable_of(texts.deep_view()),
        r.wf(),
{
    let ghost dv = texts.deep_view();
    let mut items: Vec<OwnedString> = Vec::new();
    let mut i: usize = 0;
    proof {
        assert(dv.take(0) =~= Seq::<Seq<char>>::empty());
    }
    while i < texts.len()
        invariant
            i <= texts@.len(),
            dv == texts.deep_view(),
            dv.len() == texts@.len(),
            items.deep_view() == encodable_of(dv.take(i as int)),
            forall|k: int| 0 <= k < items@.len() ==> (#[trigger] items@[k]).wf(),
        decreases texts.len() - i,
    {
        let ghost pre = items.deep_view();
        proof {
            assert(dv[i as int] == texts@[i as int]@);
        }
        match encode_string(texts[i].as_str()) {
            Some(h) => {
                items.push(h);
                proof {
                    assert(items.deep_view() =~= pre.push(dv[i as int]));
                }
            },
            None => {
            },
        }
        proof {
            assert(dv.take(i + 1).drop_last() =~= dv.take(i as int));
            assert(dv.take(i + 1).last() == dv[i as int]);
            assert(items.deep_view() =~= encodable_of(dv.take(i + 1)));
        }
        i = i + 1;
    }
    proof {
        assert(dv.take(dv.len() as int) =~= dv);
    }
    let r = OwnedStringList { items };
    proof {
        assert(r@ =~= r.items.deep_view());
    }
    r
}

} // verus!
