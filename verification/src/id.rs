//! Identities of tenants and timelines, and where a timeline lives on the
//! remote.

use vstd::prelude::*;
use vstd::string::StringExecFns;

verus! {

/// Identity of a tenant: 128 opaque bits.
#[derive(Clone, Copy, Debug, PartialEq, Eq, Structural, Hash)]
pub struct TenantId(pub u128);

/// Identity of a timeline: 128 opaque bits.
#[derive(Clone, Copy, Debug, PartialEq, Eq, Structural, Hash)]
pub struct TimelineId(pub u128);

/// The hexadecimal digit for a number below sixteen, in lower case.
pub open spec fn hex_digit(n: int) -> Seq<char> {
    if n == 0 {
        "0"@
    } else if n == 1 {
        "1"@
    } else if n == 2 {
        "2"@
    } else if n == 3 {
        "3"@
    } else if n == 4 {
        "4"@
    } else if n == 5 {
        "5"@
    } else if n == 6 {
        "6"@
    } else if n == 7 {
        "7"@
    } else if n == 8 {
        "8"@
    } else if n == 9 {
        "9"@
    } else if n == 10 {
        "a"@
    } else if n == 11 {
        "b"@
    } else if n == 12 {
        "c"@
    } else if n == 13 {
        "d"@
    } else if n == 14 {
        "e"@
    } else {
        "f"@
    }
}

/// The hexadecimal digits of `value` from the place worth `divisor` down to
/// the last, where `divisor` is a power of sixteen.
pub open spec fn hex_digits(value: u128, divisor: int) -> Seq<char>
    decreases divisor,
{
    if divisor <= 0 {
        Seq::empty()
    } else {
        hex_digit((value as int / divisor) % 16) + hex_digits(value, divisor / 16)
    }
}

/// The value of the first of 32 hexadecimal places.
pub const HEX_TOP_PLACE: u128 = 0x1000_0000_0000_0000_0000_0000_0000_0000;

/// An identity as 32 hexadecimal digits in lower case.
pub open spec fn spec_hex(value: u128) -> Seq<char> {
    hex_digits(value, HEX_TOP_PLACE as int)
}

/// The prefix of the keys of everything that belongs to a tenant.
pub open spec fn spec_tenant_path(tenant_id: TenantId) -> Seq<char> {
    "tenants/"@ + spec_hex(tenant_id.0)
}

/// The prefix, on the remote, of the keys of the files of a timeline.
pub open spec fn spec_remote_timeline_path(tenant_id: TenantId, timeline_id: TimelineId) -> Seq<
    char,
> {
    spec_tenant_path(tenant_id) + "/timelines/"@ + spec_hex(timeline_id.0)
}

/// The key, on the remote, of the file `file_name` of a timeline.
pub open spec fn spec_remote_path(
    tenant_id: TenantId,
    timeline_id: TimelineId,
    file_name: Seq<char>,
) -> Seq<char> {
    spec_remote_timeline_path(tenant_id, timeline_id) + "/"@ + file_name
}

fn hex_digit_str(n: u8) -> (r: &'static str)
    requires
        n < 16,
    ensures
        r@ == hex_digit(n as int),
{
    if n == 0 {
        "0"
    } else if n == 1 {
        "1"
    } else if n == 2 {
        "2"
    } else if n == 3 {
        "3"
    } else if n == 4 {
        "4"
    } else if n == 5 {
        "5"
    } else if n == 6 {
        "6"
    } else if n == 7 {
        "7"
    } else if n == 8 {
        "8"
    } else if n == 9 {
        "9"
    } else if n == 10 {
        "a"
    } else if n == 11 {
        "b"
    } else if n == 12 {
        "c"
    } else if n == 13 {
        "d"
    } else if n == 14 {
        "e"
    } else {
        "f"
    }
}

/// Appends the 32 hexadecimal digits of `value`.
fn push_hex(out: &mut String, value: u128)
    ensures
        final(out)@ == old(out)@ + spec_hex(value),
{
    let mut divisor: u128 = HEX_TOP_PLACE;
    assert(out@ + hex_digits(value, divisor as int) =~= old(out)@ + spec_hex(value));
    while divisor > 0
        invariant
            out@ + hex_digits(value, divisor as int) == old(out)@ + spec_hex(value),
        decreases divisor,
    {
        let digit = ((value / divisor) % 16) as u8;
        let ghost before = out@;
        out.append(hex_digit_str(digit));
        assert(out@ + hex_digits(value, divisor as int / 16) =~= before + hex_digits(
            value,
            divisor as int,
        ));
        divisor = divisor / 16;
    }
    assert(out@ + Seq::<char>::empty() =~= out@);
}

impl TenantId {
    /// The identity as 32 hexadecimal digits in lower case.
    pub fn hex(&self) -> (r: String)
        ensures
            r@ == spec_hex(self.0),
    {
        let mut out = String::new();
        push_hex(&mut out, self.0);
        assert(Seq::<char>::empty() + spec_hex(self.0) =~= spec_hex(self.0));
        out
    }
}

impl TimelineId {
    /// The identity as 32 hexadecimal digits in lower case.
    pub fn hex(&self) -> (r: String)
        ensures
            r@ == spec_hex(self.0),
    {
        let mut out = String::new();
        push_hex(&mut out, self.0);
        assert(Seq::<char>::empty() + spec_hex(self.0) =~= spec_hex(self.0));
        out
    }
}

/// The prefix of the keys of everything that belongs to a tenant:
/// `tenants/<tenant>`, with the identity in hexadecimal digits. The local
/// directory of the tenant has the same place below the working directory.
pub fn tenant_path(tenant_id: TenantId) -> (r: String)
    ensures
        r@ == spec_tenant_path(tenant_id),
{
    let mut out = String::from_str("tenants/");
    push_hex(&mut out, tenant_id.0);
    out
}

/// The prefix, on the remote, of the keys of the files of a timeline:
/// `tenants/<tenant>/timelines/<timeline>`, with the identities in
/// hexadecimal digits. The local directory of the timeline has the same
/// place below the working directory.
pub fn remote_timeline_path(tenant_id: TenantId, timeline_id: TimelineId) -> (r: String)
    ensures
        r@ == spec_remote_timeline_path(tenant_id, timeline_id),
{
    let mut out = tenant_path(tenant_id);
    out.append("/timelines/");
    push_hex(&mut out, timeline_id.0);
    out
}

/// The key, on the remote, of the file `file_name` of a timeline:
/// `tenants/<tenant>/timelines/<timeline>/<file>`.
pub fn remote_path(tenant_id: TenantId, timeline_id: TimelineId, file_name: &str) -> (r: String)
    ensures
        r@ == spec_remote_path(tenant_id, timeline_id, file_name@),
{
    let mut out = remote_timeline_path(tenant_id, timeline_id);
    out.append("/");
    out.append(file_name);
    out
}

} // verus!
