//! Request and response descriptions.
//!
//! A header mapping is a sequence of name/value pairs whose names compare
//! ASCII-case-insensitively; this crate only reads such a mapping, looks
//! names up in it, and appends to it. A request carries a method, a target
//! identifier, headers and a body; a response carries a status code, headers
//! and a body.

use vstd::prelude::*;

use crate::async_body::AsyncBody;

verus! {

use vstd::slice::slice_to_vec;

/// An ASCII upper-case letter mapped to lower case; any other byte kept.
pub open spec fn lower_byte(b: u8) -> u8 {
    if 65 <= b <= 90 {
        (b + 32) as u8
    } else {
        b
    }
}

/// The sequence with its ASCII letters mapped to lower case.
pub open spec fn lower(s: Seq<u8>) -> Seq<u8> {
    s.map_values(|b: u8| lower_byte(b))
}

/// The value of the first entry whose name equals `name` up to ASCII case.
pub open spec fn lookup(entries: Seq<(Seq<u8>, Seq<u8>)>, name: Seq<u8>) -> Option<Seq<u8>>
    decreases entries.len(),
{
    if entries.len() == 0 {
        None
    } else if lower(entries.first().0) == lower(name) {
        Some(entries.first().1)
    } else {
        lookup(entries.drop_first(), name)
    }
}

/// A header mapping: name/value pairs in insertion order.
pub struct Headers {
    pub entries: Vec<(Vec<u8>, Vec<u8>)>,
}

impl Headers {
    /// The mapping as a sequence of byte-sequence pairs.
    pub open spec fn model(self) -> Seq<(Seq<u8>, Seq<u8>)> {
        self.entries@.map_values(|e: (Vec<u8>, Vec<u8>)| (e.0@, e.1@))
    }

    /// An empty mapping.
    pub fn new() -> (r: Self)
        ensures
            r.model() == Seq::<(Seq<u8>, Seq<u8>)>::empty(),
    {
        let h = Headers { entries: Vec::new() };
        proof {
            assert(h.model() =~= Seq::<(Seq<u8>, Seq<u8>)>::empty());
        }
        h
    }

    /// Append one name/value pair at the end, keeping every existing entry.
    pub fn append(&mut self, name: Vec<u8>, value: Vec<u8>)
        ensures
            final(self).model() == old(self).model().push((name@, value@)),
    {
        let ghost m0 = self.model();
        self.entries.push((name, value));
        proof {
            assert(self.model() =~= m0.push((name@, value@)));
        }
    }

    /// Look a name up, ASCII-case-insensitively; the value of the first
    /// entry carrying the name comes back, copied.
    pub fn get(&self, name: &Vec<u8>) -> (r: Option<Vec<u8>>)
        ensures
            match r {
                Some(v) => lookup(self.model(), name@) == Some(v@),
                None => lookup(self.model(), name@) is None,
            },
    {
        let mut i: usize = 0;
        proof {
            assert(self.model().skip(0) =~= self.model());
        }
        while i < self.entries.len()
            invariant
                i <= self.entries@.len(),
                self.model().len() == self.entries@.len(),
                forall|j: int| 0 <= j < self.entries@.len() ==> #[trigger] self.model()[j]
                    == (self.entries@[j].0@, self.entries@[j].1@),
                lookup(self.model(), name@) == lookup(self.model().skip(i as int), name@),
            decreases self.entries@.len() - i,
        {
            proof {
                assert(self.model().skip(i as int).first() == self.model()[i as int]);
                assert(self.model().skip(i as int).drop_first() =~= self.model().skip(i + 1));
            }
            if eq_ignore_ascii_case(&self.entries[i].0, name) {
                return Some(slice_to_vec(self.entries[i].1.as_slice()));
            }
            i = i + 1;
        }
        proof {
            assert(self.model().skip(self.entries@.len() as int) =~= Seq::<(
                Seq<u8>,
                Seq<u8>,
            )>::empty());
        }
        None
    }
}

/// The byte sequences `a` and `b` are equal up to ASCII case.
pub fn eq_ignore_ascii_case(a: &Vec<u8>, b: &Vec<u8>) -> (r: bool)
    ensures
        r == (lower(a@) == lower(b@)),
{
    if a.len() != b.len() {
        proof {
            assert(lower(a@).len() == a@.len());
            assert(lower(b@).len() == b@.len());
        }
        return false;
    }
    let mut i: usize = 0;
    while i < a.len()
        invariant
            i <= a@.len(),
            a@.len() == b@.len(),
            forall|j: int| 0 <= j < i ==> lower(a@)[j] == lower(b@)[j],
        decreases a@.len() - i,
    {
        let x = a[i];
        let y = b[i];
        let lx = if 65 <= x && x <= 90 {
            x + 32
        } else {
            x
        };
        let ly = if 65 <= y && y <= 90 {
            y + 32
        } else {
            y
        };
        if lx != ly {
            proof {
                assert(lower(a@)[i as int] == lower_byte(a@[i as int]));
                assert(lower(b@)[i as int] == lower_byte(b@[i as int]));
            }
            return false;
        }
        i = i + 1;
    }
    proof {
        assert(lower(a@) =~= lower(b@));
    }
    true
}

/// A request description: method, target identifier, headers and body.
pub struct Request {
    pub method: Vec<u8>,
    pub target: Vec<u8>,
    pub headers: Headers,
    pub body: AsyncBody,
}

impl Request {
    /// A request with the given method and target, no headers, and an
    /// absent body.
    pub fn new(method: Vec<u8>, target: Vec<u8>) -> (r: Self)
        ensures
            r.method@ == method@,
            r.target@ == target@,
            r.headers.model() == Seq::<(Seq<u8>, Seq<u8>)>::empty(),
            r.body.inner is Empty,
            r.body.wf(),
    {
        Request { method, target, headers: Headers::new(), body: AsyncBody::empty() }
    }
}

/// A response description: status code, headers and body.
pub struct Response {
    pub status: u16,
    pub headers: Headers,
    pub body: AsyncBody,
}

} // verus!
