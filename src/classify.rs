use vstd::prelude::*;

verus! {

/// What the generator reads of one declared field: its name and, where the
/// declared type is a path, the name of the path's first segment.
pub struct FieldInfo {
    pub name: String,
    pub head: Option<String>,
}

/// The code of a character after ASCII lower-casing; other characters keep theirs.
pub open spec fn ascii_lower(c: char) -> u32 {
    if 'A' <= c && c <= 'Z' {
        ((c as u32) + 32) as u32
    } else {
        c as u32
    }
}

/// Equality of two texts when ASCII letters are compared without case.
pub open spec fn eq_ignore_case(a: Seq<char>, b: Seq<char>) -> bool {
    a.len() == b.len() && forall|i: int| 0 <= i < a.len() ==> ascii_lower(#[trigger] a[i]) == ascii_lower(b[i])
}

pub open spec fn option_word() -> Seq<char> {
    seq!['o', 'p', 't', 'i', 'o', 'n']
}

/// A field is optional when its type's outermost constructor is named
/// `option`, in any case; every other field is required.
pub open spec fn is_optional(f: FieldInfo) -> bool {
    match f.head {
        Some(h) => eq_ignore_case(h@, option_word()),
        None => false,
    }
}

/// Indices of the fields that satisfy `p`, in declaration order.
pub open spec fn indices_where(fs: Seq<FieldInfo>, p: spec_fn(FieldInfo) -> bool) -> Seq<usize>
    decreases fs.len(),
{
    if fs.len() == 0 {
        Seq::empty()
    } else {
        let rest = indices_where(fs.drop_last(), p);
        if p(fs.last()) {
            rest.push((fs.len() - 1) as usize)
        } else {
            rest
        }
    }
}

pub open spec fn spec_required(fs: Seq<FieldInfo>) -> Seq<usize> {
    indices_where(fs, |f: FieldInfo| !is_optional(f))
}

pub open spec fn spec_optional(fs: Seq<FieldInfo>) -> Seq<usize> {
    indices_where(fs, |f: FieldInfo| is_optional(f))
}

pub open spec fn spec_exclude(fs: Seq<FieldInfo>, s: Seq<char>) -> Seq<usize> {
    indices_where(fs, |f: FieldInfo| !eq_ignore_case(f.name@, s))
}

/// ASCII case-insensitive comparison of two texts.
pub fn eq_ignore_ascii_case(a: &str, b: &str) -> (r: bool)
    ensures
        r == eq_ignore_case(a@, b@),
{
    let n = a.unicode_len();
    if n != b.unicode_len() {
        return false;
    }
    let mut i: usize = 0;
    while i < n
        invariant
            n == a@.len(),
            n == b@.len(),
            i <= n,
            forall|k: int| 0 <= k < i ==> ascii_lower(#[trigger] a@[k]) == ascii_lower(b@[k]),
        decreases n - i,
    {
        let x = a.get_char(i);
        let y = b.get_char(i);
        let lx: u32 = if 'A' <= x && x <= 'Z' { (x as u32) + 32 } else { x as u32 };
        let ly: u32 = if 'A' <= y && y <= 'Z' { (y as u32) + 32 } else { y as u32 };
        if lx != ly {
            assert(ascii_lower(a@[i as int]) != ascii_lower(b@[i as int]));
            return false;
        }
        i = i + 1;
    }
    true
}

pub fn field_is_optional(f: &FieldInfo) -> (r: bool)
    ensures
        r == is_optional(*f),
{
    match &f.head {
        Some(h) => {
            let r = eq_ignore_ascii_case(h.as_str(), "option");
            proof {
                reveal_strlit("option");
                assert("option"@ =~= option_word());
            }
            r
        },
        None => false,
    }
}

/// The declared fields of a record type, in declaration order.
pub struct FieldsClassify {
    pub fields: Vec<FieldInfo>,
}

impl FieldsClassify {
    pub fn new(fields: Vec<FieldInfo>) -> (r: Self)
        ensures
            r.fields@ == fields@,
    {
        FieldsClassify { fields }
    }

    pub fn all(&self) -> (r: &Vec<FieldInfo>)
        ensures
            r@ == self.fields@,
    {
        &self.fields
    }

    /// Indices of the required fields, in declaration order.
    pub fn required(&self) -> (r: Vec<usize>)
        ensures
            r@ == spec_required(self.fields@),
    {
        let mut r: Vec<usize> = Vec::new();
        let mut i: usize = 0;
        while i < self.fields.len()
            invariant
                i <= self.fields@.len(),
                r@ == spec_required(self.fields@.take(i as int)),
            decreases self.fields@.len() - i,
        {
            assert(self.fields@.take(i + 1).drop_last() =~= self.fields@.take(i as int));
            if !field_is_optional(&self.fields[i]) {
                r.push(i);
            }
            i = i + 1;
        }
        assert(self.fields@.take(i as int) =~= self.fields@);
        r
    }

    /// Indices of the optional fields, in declaration order.
    pub fn optional(&self) -> (r: Vec<usize>)
        ensures
            r@ == spec_optional(self.fields@),
    {
        let mut r: Vec<usize> = Vec::new();
        let mut i: usize = 0;
        while i < self.fields.len()
            invariant
                i <= self.fields@.len(),
                r@ == spec_optional(self.fields@.take(i as int)),
            decreases self.fields@.len() - i,
        {
            assert(self.fields@.take(i + 1).drop_last() =~= self.fields@.take(i as int));
            if field_is_optional(&self.fields[i]) {
                r.push(i);
            }
            i = i + 1;
        }
        assert(self.fields@.take(i as int) =~= self.fields@);
        r
    }

    /// Indices of the fields whose name differs from `s`, ASCII case aside.
    pub fn exclude(&self, s: String) -> (r: Vec<usize>)
        ensures
            r@ == spec_exclude(self.fields@, s@),
    {
        let mut r: Vec<usize> = Vec::new();
        let mut i: usize = 0;
        while i < self.fields.len()
            invariant
                i <= self.fields@.len(),
                r@ == spec_exclude(self.fields@.take(i as int), s@),
            decreases self.fields@.len() - i,
        {
            assert(self.fields@.take(i + 1).drop_last() =~= self.fields@.take(i as int));
            if !eq_ignore_ascii_case(self.fields[i].name.as_str(), s.as_str()) {
                r.push(i);
            }
            i = i + 1;
        }
        assert(self.fields@.take(i as int) =~= self.fields@);
        r
    }
}

} // verus!
