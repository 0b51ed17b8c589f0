//! Kernel identification: the system name, release and machine fields that
//! the kernel hands out as fixed-width, NUL-terminated byte buffers.
use vstd::prelude::*;
use vstd::utf8::{decode_utf8, valid_utf8};
use crate::error::InfoError;
use crate::text::{chars_of, range_equals};

verus! {

/// Index of the first NUL byte of `b`, or its length when there is none.
pub open spec fn nul_index(b: Seq<u8>) -> int
    decreases b.len(),
{
    if b.len() == 0 || b[0] == 0 {
        0
    } else {
        1 + nul_index(b.drop_first())
    }
}

/// The text that the NUL-terminated buffer `b` holds, when the bytes before
/// the first NUL are valid UTF-8.
pub open spec fn field_text(b: Seq<u8>) -> Option<Seq<char>> {
    let t = b.subrange(0, nul_index(b));
    if valid_utf8(t) {
        Some(decode_utf8(t))
    } else {
        None
    }
}

/// The architecture label shown for the machine identifier `machine`:
/// `x86_64` reads `64 bit`, any other identifier stands as it is.
pub open spec fn arch_label(machine: Seq<char>) -> Seq<char> {
    if machine == "x86_64"@ {
        "64 bit"@
    } else {
        machine
    }
}

/// Relies on `std::str::from_utf8`: it succeeds exactly on valid UTF-8, and
/// the text it returns is what the bytes encode.
#[verifier::external_body]
fn utf8_text(b: &[u8]) -> (r: Option<String>)
    ensures
        r is Some <==> valid_utf8(b@),
        r is Some ==> r->0@ == decode_utf8(b@),
{
    match std::str::from_utf8(b) {
        Ok(s) => Some(s.to_owned()),
        Err(_) => None,
    }
}

proof fn lemma_nul_index(b: Seq<u8>, j: int)
    requires
        0 <= j <= b.len(),
        forall|k: int| 0 <= k < j ==> b[k] != 0,
        j == b.len() || b[j] == 0,
    ensures
        nul_index(b) == j,
    decreases b.len(),
{
    if b.len() > 0 && b[0] != 0 {
        lemma_nul_index(b.drop_first(), j - 1);
    }
}

/// The text of the NUL-terminated buffer `b`.
fn decode_field(b: &[u8]) -> (r: Option<String>)
    ensures
        match r {
            Some(s) => field_text(b@) == Some(s@),
            None => field_text(b@) is None,
        },
{
    let mut t: Vec<u8> = Vec::new();
    let mut i: usize = 0;
    while i < b.len() && b[i] != 0
        invariant
            i <= b.len(),
            forall|k: int| 0 <= k < i ==> b@[k] != 0,
            t@ == b@.subrange(0, i as int),
        decreases b.len() - i,
    {
        t.push(b[i]);
        i = i + 1;
        assert(t@ =~= b@.subrange(0, i as int));
    }
    proof {
        lemma_nul_index(b@, i as int);
    }
    utf8_text(t.as_slice())
}

/// What `Uname` holds, as text.
pub struct UnameView {
    pub sys_name: Seq<char>,
    pub release: Seq<char>,
    pub machine: Seq<char>,
}

/// The kernel's identification: system name, release and hardware
/// architecture.
pub struct Uname {
    sys_name: String,
    release: String,
    machine: String,
}

impl View for Uname {
    type V = UnameView;

    closed spec fn view(&self) -> UnameView {
        UnameView { sys_name: self.sys_name@, release: self.release@, machine: self.machine@ }
    }
}

impl Uname {
    /// Decodes the three NUL-terminated buffers of the kernel's
    /// identification; fails when one of them is not valid UTF-8.
    pub fn from_raw(sys_name: &[u8], release: &[u8], machine: &[u8]) -> (r: Result<
        Uname,
        InfoError,
    >)
        ensures
            match r {
                Ok(u) => {
                    &&& field_text(sys_name@) == Some(u@.sys_name)
                    &&& field_text(release@) == Some(u@.release)
                    &&& field_text(machine@) == Some(u@.machine)
                },
                Err(e) => {
                    &&& e == InfoError::Encoding
                    &&& (field_text(sys_name@) is None || field_text(release@) is None
                        || field_text(machine@) is None)
                },
            },
    {
        let s = match decode_field(sys_name) {
            Some(s) => s,
            None => return Err(InfoError::Encoding),
        };
        let r = match decode_field(release) {
            Some(r) => r,
            None => return Err(InfoError::Encoding),
        };
        let m = match decode_field(machine) {
            Some(m) => m,
            None => return Err(InfoError::Encoding),
        };
        Ok(Uname { sys_name: s, release: r, machine: m })
    }

    /// System name
    pub fn sys_name(&self) -> (r: &str)
        ensures
            r@ == self@.sys_name,
    {
        self.sys_name.as_str()
    }

    /// OS release version
    pub fn release(&self) -> (r: &str)
        ensures
            r@ == self@.release,
    {
        self.release.as_str()
    }

    /// Hardware architecture
    pub fn machine(&self) -> (r: &str)
        ensures
            r@ == self@.machine,
    {
        self.machine.as_str()
    }
}

/// The label under which the machine identifier `machine` is shown.
pub fn architecture_label(machine: &str) -> (r: String)
    ensures
        r@ == arch_label(machine@),
{
    let m = chars_of(machine);
    let x = chars_of("x86_64");
    if range_equals(&m, 0, m.len(), &x) {
        proof {
            assert(m@.subrange(0, m@.len() as int) =~= m@);
        }
        "64 bit".to_owned()
    } else {
        proof {
            assert(m@.subrange(0, m@.len() as int) =~= m@);
        }
        machine.to_owned()
    }
}

} // verus!
