use vstd::prelude::*;

verus! {

/// The text of a header value, when its bytes are valid UTF-8.
pub open spec fn field_text(v: Seq<u8>) -> Option<Seq<char>> {
    if vstd::utf8::valid_utf8(v) {
        Some(vstd::utf8::decode_utf8(v))
    } else {
        None
    }
}

/// Relies on std::str::from_utf8, which succeeds exactly when the bytes are
/// valid UTF-8 and then yields the characters they encode.
#[verifier::external_body]
pub(crate) fn header_text(value: &[u8]) -> (r: Option<String>)
    ensures
        r is Some <==> field_text(value@) is Some,
        r matches Some(t) ==> field_text(value@) == Some(t@),
{
    match std::str::from_utf8(value) {
        Ok(s) => Some(s.to_owned()),
        Err(_) => None,
    }
}

/// The header fields of a request, in the order received; a name may repeat.
#[derive(Debug)]
pub struct HeaderList {
    entries: Vec<(String, Vec<u8>)>,
}

/// Name and raw value of each field.
pub open spec fn field_views(s: Seq<(String, Vec<u8>)>) -> Seq<(Seq<char>, Seq<u8>)> {
    s.map_values(|p: (String, Vec<u8>)| (p.0@, p.1@))
}

impl View for HeaderList {
    type V = Seq<(Seq<char>, Seq<u8>)>;

    closed spec fn view(&self) -> Seq<(Seq<char>, Seq<u8>)> {
        field_views(self.entries@)
    }
}

impl HeaderList {
    /// An empty header list.
    pub fn new() -> (r: HeaderList)
        ensures
            r@ == Seq::<(Seq<char>, Seq<u8>)>::empty(),
    {
        let r = HeaderList { entries: Vec::new() };
        assert(field_views(r.entries@) =~= Seq::empty());
        r
    }

    /// Appends a field after those already present.
    pub fn append(&mut self, name: &str, value: &[u8])
        ensures
            final(self)@ == old(self)@.push((name@, value@)),
    {
        let ghost s = self.entries@;
        let v = vstd::slice::slice_to_vec(value);
        self.entries.push((name.to_owned(), v));
        assert(field_views(self.entries@) =~= field_views(s).push((name@, value@)));
    }

    /// Number of fields.
    pub fn len(&self) -> (r: usize)
        ensures
            r == self@.len(),
    {
        self.entries.len()
    }

    /// The `i`-th field.
    pub fn field(&self, i: usize) -> (r: (&String, &Vec<u8>))
        requires
            i < self@.len(),
        ensures
            r.0@ == self@[i as int].0,
            r.1@ == self@[i as int].1,
    {
        (&self.entries[i].0, &self.entries[i].1)
    }
}

} // verus!
