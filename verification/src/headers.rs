//! HTTP header values as plain bytes.
//!
//! Response headers are held as an ordered list of lower-cased name /
//! value pairs, and user-supplied extra request headers are parsed
//! from `Name: Value` text.  The name and value grammars follow the
//! HTTP field rules: a name is one or more token characters (ASCII
//! letters are folded to lower case), a value is any run of visible
//! bytes, spaces and horizontal tabs.

use vstd::prelude::*;
use crate::textfmt::{bytes_eq, spec_lower, to_lower};

verus! {

/// Whether `b` may appear in a header name: an HTTP token character.
pub open spec fn is_name_byte(b: u8) -> bool {
    ||| 0x61 <= b <= 0x7a  // a-z
    ||| 0x41 <= b <= 0x5a  // A-Z
    ||| 0x30 <= b <= 0x39  // 0-9
    ||| b == 0x21  // !
    ||| 0x23 <= b <= 0x27  // # $ % & '
    ||| b == 0x2a || b == 0x2b || b == 0x2d || b == 0x2e  // * + - .
    ||| 0x5e <= b <= 0x60  // ^ _ `
    ||| b == 0x7c || b == 0x7e  // | ~
}

/// Whether `b` may appear in a header value: visible bytes, space and
/// horizontal tab.
pub open spec fn is_value_byte(b: u8) -> bool {
    b == 9 || (b >= 32 && b != 127)
}

/// ASCII whitespace, as trimmed from either side of a header part.
pub open spec fn is_ws(b: u8) -> bool {
    b == 0x20 || 9 <= b <= 13
}

/// `s` with ASCII whitespace removed from both ends.
pub open spec fn spec_trim(s: Seq<u8>) -> Seq<u8>
    decreases s.len(),
{
    if s.len() == 0 {
        s
    } else if is_ws(s[0]) {
        spec_trim(s.drop_first())
    } else if is_ws(s.last()) {
        spec_trim(s.drop_last())
    } else {
        s
    }
}

/// A valid header name: non-empty, token characters only.
pub open spec fn valid_header_name(s: Seq<u8>) -> bool {
    s.len() > 0 && forall|i: int| 0 <= i < s.len() ==> is_name_byte(#[trigger] s[i])
}

/// A valid header value: value characters only.
pub open spec fn valid_header_value(s: Seq<u8>) -> bool {
    forall|i: int| 0 <= i < s.len() ==> is_value_byte(#[trigger] s[i])
}

/// The index of the first occurrence of `b` in `s`, if any.
pub open spec fn spec_find_byte(s: Seq<u8>, b: u8) -> Option<int>
    decreases s.len(),
{
    if s.len() == 0 {
        None
    } else if s[0] == b {
        Some(0)
    } else {
        match spec_find_byte(s.drop_first(), b) {
            Some(i) => Some(i + 1),
            None => None,
        }
    }
}

/// A byte absent from the first `k` positions is first found where
/// it is first found past them.
pub proof fn lemma_find_byte_skip(s: Seq<u8>, b: u8, k: int)
    requires
        0 <= k <= s.len(),
        forall|i: int| 0 <= i < k ==> s[i] != b,
    ensures
        spec_find_byte(s, b) == match spec_find_byte(s.skip(k), b) {
            Some(i) => Some(i + k),
            None => None::<int>,
        },
    decreases k,
{
    if k > 0 {
        assert(s.drop_first() =~= s.skip(1));
        assert(s.skip(1).skip(k - 1) =~= s.skip(k));
        lemma_find_byte_skip(s.skip(1), b, k - 1);
    } else {
        assert(s.skip(0) =~= s);
    }
}

/// Find the first occurrence of `b` in `s`.
pub fn find_byte(s: &[u8], b: u8) -> (r: Option<usize>)
    ensures
        match r {
            Some(i) => spec_find_byte(s@, b) == Some(i as int) && 0 <= i < s@.len(),
            None => spec_find_byte(s@, b) is None,
        },
{
    let mut i: usize = 0;
    while i < s.len()
        invariant
            0 <= i <= s@.len(),
            forall|j: int| 0 <= j < i ==> s@[j] != b,
        decreases s@.len() - i,
    {
        if s[i] == b {
            proof {
                lemma_find_byte_skip(s@, b, i as int);
                assert(s@.skip(i as int)[0] == b);
            }
            return Some(i);
        }
        i = i + 1;
    }
    proof {
        lemma_find_byte_skip(s@, b, s@.len() as int);
        assert(s@.skip(s@.len() as int).len() == 0);
    }
    None
}

proof fn lemma_trim_skip_front(s: Seq<u8>, k: int)
    requires
        0 <= k <= s.len(),
        forall|i: int| 0 <= i < k ==> is_ws(#[trigger] s[i]),
    ensures
        spec_trim(s) == spec_trim(s.skip(k)),
    decreases k,
{
    if k > 0 {
        assert(s.drop_first() =~= s.skip(1));
        assert(s.skip(1).skip(k - 1) =~= s.skip(k));
        lemma_trim_skip_front(s.skip(1), k - 1);
    } else {
        assert(s.skip(0) =~= s);
    }
}

proof fn lemma_trim_drop_back(s: Seq<u8>, k: int)
    requires
        0 <= k <= s.len(),
        forall|i: int| s.len() - k <= i < s.len() ==> is_ws(#[trigger] s[i]),
        s.len() > k ==> !is_ws(s[0]),
    ensures
        spec_trim(s) == spec_trim(s.take(s.len() - k)),
    decreases k,
{
    if k > 0 && s.len() > k {
        assert(s.drop_last() =~= s.take(s.len() - 1));
        assert(s.take(s.len() - 1).take(s.len() - k) =~= s.take(s.len() - k));
        lemma_trim_drop_back(s.take(s.len() - 1), k - 1);
    } else if k > 0 {
        // everything is whitespace: both sides trim to empty
        lemma_trim_all_ws(s);
        assert(s.take(s.len() - k).len() == 0);
    } else {
        assert(s.take(s.len() as int) =~= s);
    }
}

proof fn lemma_trim_all_ws(s: Seq<u8>)
    requires
        forall|i: int| 0 <= i < s.len() ==> is_ws(#[trigger] s[i]),
    ensures
        spec_trim(s).len() == 0,
    decreases s.len(),
{
    if s.len() > 0 {
        lemma_trim_all_ws(s.drop_first());
    }
}

/// Whether `b` is ASCII whitespace.
pub fn is_ws_byte(b: u8) -> (r: bool)
    ensures
        r == is_ws(b),
{
    b == 0x20 || (9 <= b && b <= 13)
}

/// Trim ASCII whitespace from both ends of `s`.
pub fn trim_bytes(s: &[u8]) -> (r: Vec<u8>)
    ensures
        r@ == spec_trim(s@),
{
    let mut lo: usize = 0;
    while lo < s.len() && is_ws_byte(s[lo])
        invariant
            0 <= lo <= s@.len(),
            forall|i: int| 0 <= i < lo ==> is_ws(#[trigger] s@[i]),
        decreases s@.len() - lo,
    {
        lo = lo + 1;
    }
    let mut hi: usize = s.len();
    while hi > lo && is_ws_byte(s[hi - 1])
        invariant
            0 <= lo <= hi <= s@.len(),
            forall|i: int| 0 <= i < lo ==> is_ws(#[trigger] s@[i]),
            forall|i: int| hi <= i < s@.len() ==> is_ws(#[trigger] s@[i]),
        decreases hi,
    {
        hi = hi - 1;
    }
    let mut v: Vec<u8> = Vec::new();
    let mut i: usize = lo;
    while i < hi
        invariant
            0 <= lo <= i <= hi <= s@.len(),
            v@ == s@.subrange(lo as int, i as int),
        decreases hi - i,
    {
        let b = s[i];
        v.push(b);
        proof {
            assert(v@ =~= s@.subrange(lo as int, i + 1));
        }
        i = i + 1;
    }
    proof {
        let mid = s@.skip(lo as int);
        lemma_trim_skip_front(s@, lo as int);
        assert(forall|i: int|
            mid.len() - (s@.len() - hi) <= i < mid.len() ==> is_ws(#[trigger] mid[i]));
        if lo < hi {
            assert(!is_ws(mid[0]));
        }
        lemma_trim_drop_back(mid, s@.len() - hi);
        let core = mid.take(mid.len() - (s@.len() - hi));
        assert(core =~= s@.subrange(lo as int, hi as int));
        if lo < hi {
            assert(!is_ws(core[0]));
            assert(!is_ws(core.last()));
            assert(spec_trim(core) == core);
        } else {
            assert(core.len() == 0);
        }
        assert(v@ =~= s@.subrange(lo as int, hi as int));
    }
    v
}

/// Whether every byte of `s` satisfies the header-name rule and the
/// string is non-empty.
pub fn check_header_name(s: &[u8]) -> (r: bool)
    ensures
        r == valid_header_name(s@),
{
    if s.len() == 0 {
        return false;
    }
    let mut i: usize = 0;
    while i < s.len()
        invariant
            0 <= i <= s@.len(),
            forall|j: int| 0 <= j < i ==> is_name_byte(#[trigger] s@[j]),
        decreases s@.len() - i,
    {
        let b = s[i];
        let ok = (0x61 <= b && b <= 0x7a) || (0x41 <= b && b <= 0x5a) || (0x30 <= b && b <= 0x39)
            || b == 0x21 || (0x23 <= b && b <= 0x27) || b == 0x2a || b == 0x2b || b == 0x2d
            || b == 0x2e || (0x5e <= b && b <= 0x60) || b == 0x7c || b == 0x7e;
        if !ok {
            return false;
        }
        i = i + 1;
    }
    true
}

/// Whether every byte of `s` satisfies the header-value rule.
pub fn check_header_value(s: &[u8]) -> (r: bool)
    ensures
        r == valid_header_value(s@),
{
    let mut i: usize = 0;
    while i < s.len()
        invariant
            0 <= i <= s@.len(),
            forall|j: int| 0 <= j < i ==> is_value_byte(#[trigger] s@[j]),
        decreases s@.len() - i,
    {
        let b = s[i];
        if !(b == 9 || (b >= 32 && b != 127)) {
            return false;
        }
        i = i + 1;
    }
    true
}

/// Why a `Name: Value` definition was rejected.
#[derive(Clone, Copy, Debug, PartialEq, Eq, Structural)]
pub enum ExtraHeaderError {
    MissingColon,
    InvalidName,
    InvalidValue,
}

impl ExtraHeaderError {
    /// A human-readable description of the rejection.
    pub fn to_string(&self) -> (r: String)
        ensures
            r@ == match *self {
                ExtraHeaderError::MissingColon => "Header definition should contain a colon \":\""@,
                ExtraHeaderError::InvalidName => "Invalid header name"@,
                ExtraHeaderError::InvalidValue => "Invalid header value"@,
            },
    {
        match self {
            ExtraHeaderError::MissingColon => "Header definition should contain a colon \":\"".to_owned(),
            ExtraHeaderError::InvalidName => "Invalid header name".to_owned(),
            ExtraHeaderError::InvalidValue => "Invalid header value".to_owned(),
        }
    }
}

/// An additional request header supplied by the user, already
/// validated and with the name folded to lower case.
#[derive(Clone, Debug, PartialEq, Eq)]
pub struct ExtraHeader {
    pub name: Vec<u8>,
    pub value: Vec<u8>,
}

/// Parse a `Name: Value` definition: split at the first colon, trim
/// whitespace from both parts, validate, and fold the name to lower
/// case.
pub fn parse_extra_header(s: &[u8]) -> (r: Result<ExtraHeader, ExtraHeaderError>)
    ensures
        spec_find_byte(s@, 0x3a) is None ==> r == Err::<ExtraHeader, _>(
            ExtraHeaderError::MissingColon,
        ),
        spec_find_byte(s@, 0x3a) matches Some(c) ==> {
            let n = spec_trim(s@.take(c));
            let v = spec_trim(s@.skip(c + 1));
            if !valid_header_name(n) {
                r == Err::<ExtraHeader, _>(ExtraHeaderError::InvalidName)
            } else if !valid_header_value(v) {
                r == Err::<ExtraHeader, _>(ExtraHeaderError::InvalidValue)
            } else {
                r matches Ok(h) && h.name@ == spec_lower(n) && h.value@ == v
            }
        },
{
    let c = match find_byte(s, 0x3a) {
        Some(c) => c,
        None => {
            return Err(ExtraHeaderError::MissingColon);
        },
    };
    let (name_part, rest) = s.split_at(c);
    let value_part_full = rest.split_at(1).1;
    proof {
        assert(name_part@ =~= s@.take(c as int));
        assert(value_part_full@ =~= s@.skip(c + 1));
    }
    let name = trim_bytes(name_part);
    let value = trim_bytes(value_part_full);
    if !check_header_name(name.as_slice()) {
        return Err(ExtraHeaderError::InvalidName);
    }
    if !check_header_value(value.as_slice()) {
        return Err(ExtraHeaderError::InvalidValue);
    }
    let lowered = to_lower(name.as_slice());
    Ok(ExtraHeader { name: lowered, value })
}

impl core::str::FromStr for ExtraHeader {
    type Err = ExtraHeaderError;

    fn from_str(s: &str) -> Result<ExtraHeader, ExtraHeaderError> {
        parse_extra_header(s.as_bytes())
    }
}

/// The response headers of one HTTP transaction: lower-cased names
/// paired with raw values, in arrival order.
#[derive(Debug)]
pub struct Headers {
    entries: Vec<(Vec<u8>, Vec<u8>)>,
}

/// The value of the first entry named `name`, if any.
pub open spec fn spec_header_get(hs: Seq<(Seq<u8>, Seq<u8>)>, name: Seq<u8>) -> Option<Seq<u8>>
    decreases hs.len(),
{
    if hs.len() == 0 {
        None
    } else if hs[0].0 == name {
        Some(hs[0].1)
    } else {
        spec_header_get(hs.drop_first(), name)
    }
}

proof fn lemma_header_get_skip(hs: Seq<(Seq<u8>, Seq<u8>)>, name: Seq<u8>, k: int)
    requires
        0 <= k <= hs.len(),
        forall|i: int| 0 <= i < k ==> (#[trigger] hs[i]).0 != name,
    ensures
        spec_header_get(hs, name) == spec_header_get(hs.skip(k), name),
    decreases k,
{
    if k > 0 {
        assert(hs.drop_first() =~= hs.skip(1));
        assert(hs.skip(1).skip(k - 1) =~= hs.skip(k));
        lemma_header_get_skip(hs.skip(1), name, k - 1);
    } else {
        assert(hs.skip(0) =~= hs);
    }
}

impl View for Headers {
    type V = Seq<(Seq<u8>, Seq<u8>)>;

    closed spec fn view(&self) -> Seq<(Seq<u8>, Seq<u8>)> {
        self.entries@.map_values(|p: (Vec<u8>, Vec<u8>)| (p.0@, p.1@))
    }
}

impl Headers {
    pub fn new() -> (r: Headers)
        ensures
            r@ =~= Seq::<(Seq<u8>, Seq<u8>)>::empty(),
    {
        Headers { entries: Vec::new() }
    }

    /// Append a header, folding the name to lower case.
    pub fn push(&mut self, name: &[u8], value: &[u8])
        ensures
            final(self)@ =~= old(self)@.push((spec_lower(name@), value@)),
    {
        let lowered = to_lower(name);
        let mut v: Vec<u8> = Vec::new();
        v.extend_from_slice(value);
        proof {
            assert(v@ =~= value@);
        }
        self.entries.push((lowered, v));
    }

    /// The value of the first header named `name` (lower case), if any.
    pub fn get(&self, name: &[u8]) -> (r: Option<&Vec<u8>>)
        ensures
            match r {
                Some(v) => spec_header_get(self@, name@) == Some(v@),
                None => spec_header_get(self@, name@) is None,
            },
    {
        let mut i: usize = 0;
        while i < self.entries.len()
            invariant
                0 <= i <= self.entries@.len(),
                self@.len() == self.entries@.len(),
                forall|j: int| 0 <= j < self@.len() ==> #[trigger] self@[j]
                    == (self.entries@[j].0@, self.entries@[j].1@),
                forall|j: int| 0 <= j < i ==> (#[trigger] self@[j]).0 != name@,
            decreases self.entries@.len() - i,
        {
            if bytes_eq(self.entries[i].0.as_slice(), name) {
                proof {
                    lemma_header_get_skip(self@, name@, i as int);
                    assert(self@.skip(i as int)[0] == self@[i as int]);
                }
                return Some(&self.entries[i].1);
            }
            i = i + 1;
        }
        proof {
            lemma_header_get_skip(self@, name@, self@.len() as int);
        }
        None
    }

    /// Whether a header named `name` (lower case) is present.
    pub fn has(&self, name: &[u8]) -> (r: bool)
        ensures
            r == (spec_header_get(self@, name@) is Some),
    {
        match self.get(name) {
            Some(_) => true,
            None => false,
        }
    }
}

} // verus!
