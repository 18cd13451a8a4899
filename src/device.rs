use crate::error::AudioError;
use vstd::prelude::*;
use vstd::string::*;

verus! {

/// `p` occurs in `s` starting at position `i`.
pub open spec fn occurs_at(s: Seq<char>, p: Seq<char>, i: int) -> bool {
    0 <= i && i + p.len() <= s.len() && s.subrange(i, i + p.len()) == p
}

/// `p` occurs somewhere in `s` as a contiguous run of characters.
pub open spec fn contains_text(s: Seq<char>, p: Seq<char>) -> bool {
    exists|i: int| occurs_at(s, p, i)
}

/// The identifier of the device named `name`, for its input or its output side.
pub open spec fn device_id_of(name: Seq<char>, is_input: bool) -> Seq<char> {
    if is_input {
        name + "_input"@
    } else {
        name + "_output"@
    }
}

/// A device named `name` is a VB-Cable virtual device.
pub open spec fn names_vb_cable(name: Seq<char>) -> bool {
    contains_text(name, "Cable"@) || contains_text(name, "VB Audio Cable"@)
}

/// Whether `pattern` occurs in `text`.
pub fn text_contains(text: &str, pattern: &str) -> (r: bool)
    ensures
        r == contains_text(text@, pattern@),
{
    let n = text.unicode_len();
    let m = pattern.unicode_len();
    if m > n {
        assert forall|i: int| !occurs_at(text@, pattern@, i) by {}
        return false;
    }
    if m == 0 {
        assert(text@.subrange(0, 0) =~= pattern@);
        assert(occurs_at(text@, pattern@, 0));
        return true;
    }
    let mut i: usize = 0;
    while i <= n - m
        invariant
            n == text@.len(),
            m == pattern@.len(),
            0 < m <= n,
            forall|j: int| 0 <= j < i ==> !occurs_at(text@, pattern@, j),
        decreases n - m + 1 - i,
    {
        let mut k: usize = 0;
        let mut same = true;
        while same && k < m
            invariant
                n == text@.len(),
                m == pattern@.len(),
                i + m <= n,
                k <= m,
                same ==> text@.subrange(i as int, i + k) == pattern@.subrange(0, k as int),
                !same ==> !occurs_at(text@, pattern@, i as int),
            decreases m - k + (if same { 1int } else { 0int }),
        {
            if text.get_char(i + k) != pattern.get_char(k) {
                same = false;
                assert(!occurs_at(text@, pattern@, i as int)) by {
                    if occurs_at(text@, pattern@, i as int) {
                        assert(text@.subrange(i as int, i + m)[k as int] == pattern@[k as int]);
                    }
                }
            } else {
                assert(text@.subrange(i as int, i + k + 1) =~= pattern@.subrange(0, k + 1));
                k += 1;
            }
        }
        if same {
            assert(pattern@.subrange(0, m as int) =~= pattern@);
            assert(occurs_at(text@, pattern@, i as int));
            return true;
        }
        i += 1;
    }
    assert forall|j: int| !occurs_at(text@, pattern@, j) by {
        if 0 <= j < i {
        } else if j >= i {
            assert(j + m > n);
        }
    }
    false
}

/// The identifier under which the device named `name` is listed and routed.
pub fn generate_device_id(name: &str, is_input: bool) -> (r: String)
    ensures
        r@ == device_id_of(name@, is_input),
{
    let mut id = name.to_owned();
    if is_input {
        id.append("_input");
    } else {
        id.append("_output");
    }
    id
}

/// Whether the device named `name` is a VB-Cable virtual device.
pub fn is_vb_cable(name: &str) -> (r: bool)
    ensures
        r == names_vb_cable(name@),
{
    text_contains(name, "Cable") || text_contains(name, "VB Audio Cable")
}

/// What is listed about one side (input or output) of an audio device.
#[derive(Debug, Clone, PartialEq, Eq)]
pub struct DeviceInfo {
    pub id: String,
    pub name: String,
    pub is_input: bool,
    pub is_output: bool,
    pub sample_rate: u32,
    pub channels: u16,
    pub is_vb_cable: bool,
}

impl DeviceInfo {
    /// The listing of the input side (`is_input`) or the output side of the
    /// device named `name`, with its default sample rate and channel count.
    pub fn new(name: String, is_input: bool, sample_rate: u32, channels: u16) -> (r: DeviceInfo)
        ensures
            r.id@ == device_id_of(name@, is_input),
            r.name@ == name@,
            r.is_input == is_input,
            r.is_output == !is_input,
            r.sample_rate == sample_rate,
            r.channels == channels,
            r.is_vb_cable == names_vb_cable(name@),
    {
        let id = generate_device_id(name.as_str(), is_input);
        let is_vb_cable = is_vb_cable(name.as_str());
        DeviceInfo {
            id,
            name,
            is_input,
            is_output: !is_input,
            sample_rate,
            channels,
            is_vb_cable,
        }
    }
}

/// The position in `names` of the first device whose identifier, for the
/// given side, is `device_id`; `DeviceNotFound` when there is none.
pub fn find_device_by_id(names: &Vec<String>, is_input: bool, device_id: &str) -> (r: Result<
    usize,
    AudioError,
>)
    ensures
        match r {
            Ok(i) => {
                &&& i < names@.len()
                &&& device_id_of(names@[i as int]@, is_input) == device_id@
                &&& forall|j: int|
                    0 <= j < i ==> device_id_of(#[trigger] names@[j]@, is_input) != device_id@
            },
            Err(e) => {
                &&& forall|j: int|
                    0 <= j < names@.len() ==> device_id_of(#[trigger] names@[j]@, is_input)
                        != device_id@
                &&& e is DeviceNotFound
                &&& e->DeviceNotFound_0@ == device_id@
            },
        },
{
    let wanted = device_id.to_owned();
    let mut i: usize = 0;
    while i < names.len()
        invariant
            wanted@ == device_id@,
            i <= names@.len(),
            forall|j: int| 0 <= j < i ==> device_id_of(#[trigger] names@[j]@, is_input) != device_id@,
        decreases names@.len() - i,
    {
        let id = generate_device_id(names[i].as_str(), is_input);
        if id == wanted {
            return Ok(i);
        }
        i += 1;
    }
    Err(AudioError::DeviceNotFound(wanted))
}

} // verus!
