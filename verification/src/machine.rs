//! The machine records a host manages.
//!
//! Machines — 3D printers and other CNC devices — are rows the outside
//! store keeps; the broker never reads them. This module holds the records
//! and the request forms as plain values, so the transport layer can hand
//! them through typed.

use vstd::prelude::*;
use vstd::string::StrSliceExecFns;

verus! {

/// Whether `s` is a plain decimal numeral: digits only, at least one.
pub open spec fn is_decimal(s: Seq<char>) -> bool {
    s.len() > 0 && forall|i: int| 0 <= i < s.len() ==> '0' <= #[trigger] s[i] <= '9'
}

/// The value of a decimal numeral, most significant digit first.
pub open spec fn decimal_value(s: Seq<char>) -> int
    decreases s.len(),
{
    if s.len() == 0 {
        0
    } else {
        decimal_value(s.drop_last()) * 10 + (s.last() as int - '0' as int)
    }
}

/// A numeral's value only grows as digits are appended.
proof fn lemma_decimal_prefix_bound(s: Seq<char>, i: int)
    requires
        0 <= i <= s.len(),
        forall|j: int| 0 <= j < s.len() ==> '0' <= #[trigger] s[j] <= '9',
    ensures
        decimal_value(s.take(i)) <= decimal_value(s),
        decimal_value(s) >= 0,
    decreases s.len() - i,
{
    if i < s.len() {
        let t = s.take(i + 1);
        assert(t.drop_last() =~= s.take(i));
        assert(t.last() == s[i]);
        assert(forall|j: int| 0 <= j < s.take(i).len() ==> '0' <= #[trigger] s.take(i)[j] <= '9');
        lemma_decimal_nonneg(s.take(i));
        assert(decimal_value(s.take(i)) <= decimal_value(s.take(i + 1))) by (nonlinear_arith)
            requires
                decimal_value(s.take(i + 1)) == decimal_value(s.take(i)) * 10 + (s[i] as int
                    - '0' as int),
                '0' <= s[i] <= '9',
                decimal_value(s.take(i)) >= 0,
        {}
        lemma_decimal_prefix_bound(s, i + 1);
        assert(s.take(s.len() as int) =~= s);
    } else {
        assert(s.take(s.len() as int) =~= s);
        lemma_decimal_nonneg(s);
    }
}

/// A numeral's value is never negative.
proof fn lemma_decimal_nonneg(s: Seq<char>)
    requires
        forall|j: int| 0 <= j < s.len() ==> '0' <= #[trigger] s[j] <= '9',
    ensures
        decimal_value(s) >= 0,
    decreases s.len(),
{
    if s.len() > 0 {
        assert(forall|j: int| 0 <= j < s.drop_last().len() ==> '0' <= #[trigger] s.drop_last()[j]
            <= '9');
        lemma_decimal_nonneg(s.drop_last());
        assert(decimal_value(s) >= 0) by (nonlinear_arith)
            requires
                decimal_value(s) == decimal_value(s.drop_last()) * 10 + (s.last() as int
                    - '0' as int),
                decimal_value(s.drop_last()) >= 0,
                '0' <= s.last() <= '9',
        {}
    }
}

/// Parses the decimal id a request names, as record keys are rendered:
/// digits only, fitting the store's id type. Anything else — empty text, a
/// sign, a stray character, a value too large — is rejected.
pub fn parse_db_id(s: &str) -> (r: Option<i64>)
    ensures
        r matches Some(v) ==> is_decimal(s@) && v == decimal_value(s@),
        r is None ==> !is_decimal(s@) || decimal_value(s@) > i64::MAX,
{
    let n = s.unicode_len();
    if n == 0 {
        return None;
    }
    let mut acc: i64 = 0;
    let mut i: usize = 0;
    while i < n
        invariant
            0 < n == s@.len(),
            0 <= i <= n,
            forall|j: int| 0 <= j < i ==> '0' <= #[trigger] s@[j] <= '9',
            0 <= acc == decimal_value(s@.take(i as int)),
        decreases n - i,
    {
        let c = s.get_char(i);
        if !(c >= '0' && c <= '9') {
            return None;
        }
        let d = (c as u32 - 48) as i64;
        assert(d == c as int - '0' as int && 0 <= d <= 9);
        if acc > (i64::MAX - d) / 10 {
            proof {
                assert(s@.take(i as int + 1).drop_last() =~= s@.take(i as int));
                assert(s@.take(i as int + 1).last() == s@[i as int]);
                if is_decimal(s@) {
                    assert(decimal_value(s@.take(i as int + 1)) > i64::MAX) by (nonlinear_arith)
                        requires
                            decimal_value(s@.take(i as int + 1)) == acc * 10 + d,
                            acc > (i64::MAX - d) / 10,
                            0 <= d <= 9,
                            i64::MAX - d >= 10 * ((i64::MAX - d) / 10),
                    {}
                    lemma_decimal_prefix_bound(s@, i as int + 1);
                }
            }
            return None;
        }
        proof {
            assert(acc * 10 + d <= i64::MAX) by (nonlinear_arith)
                requires
                    acc <= (i64::MAX - d) / 10,
                    0 <= d <= 9,
                    0 <= acc,
                    i64::MAX - d >= 10 * ((i64::MAX - d) / 10),
            {}
            assert(s@.take(i as int + 1).drop_last() =~= s@.take(i as int));
            assert(s@.take(i as int + 1).last() == s@[i as int]);
        }
        acc = acc * 10 + d;
        i = i + 1;
    }
    proof {
        assert(s@.take(n as int) =~= s@);
    }
    Some(acc)
}

/// A 3D printer or other CNC device. Timestamps are seconds since the
/// epoch.
#[derive(Debug)]
pub struct Machine {
    pub id: i64,
    pub created_at: i64,
    pub updated_at: i64,
    pub user_id: i64,
    pub public_key: String,
    pub name: String,
    pub slug: String,
}

impl Machine {
    /// The machine's stable id.
    pub fn id(&self) -> (r: i64)
        ensures
            r == self.id,
    {
        self.id
    }

    /// The machine's public key.
    pub fn public_key(&self) -> (r: &String)
        ensures
            r@ == self.public_key@,
    {
        &self.public_key
    }

    /// The machine's display name.
    pub fn name(&self) -> (r: &String)
        ensures
            r@ == self.name@,
    {
        &self.name
    }

    /// The machine's slug.
    pub fn slug(&self) -> (r: &String)
        ensures
            r@ == self.slug@,
    {
        &self.slug
    }
}

/// The form registering one machine from its host.
#[derive(Debug)]
pub struct MachineInput {
    pub slug: String,
    pub name: String,
}

/// The form registering a host's machines, upserted by slug.
#[derive(Debug)]
pub struct RegisterMachinesInput {
    pub machines: Vec<MachineInput>,
}

/// The form deleting machines of a host by slug.
#[derive(Debug)]
pub struct DeleteMachinesInput {
    pub machine_slugs: Vec<String>,
}

/// The form creating a new machine for a user.
#[derive(Debug)]
pub struct CreateMachineInput {
    pub public_key: String,
    pub name: String,
    pub slug: String,
}

/// A new 3D printer or other CNC device.
#[derive(Debug)]
pub struct CreateMachine {
    pub public_key: String,
    pub name: String,
    pub slug: String,
}

/// The row inserted for a new machine.
#[derive(Debug)]
pub struct NewMachineSQL {
    pub user_id: i64,
    pub public_key: String,
    pub name: String,
    pub slug: String,
}

/// The form renaming a machine.
#[derive(Debug)]
pub struct SetMachineName {
    pub id: String,
    pub name: String,
}

/// The column update applied when renaming a machine.
#[derive(Debug)]
pub struct SetMachineNameSQL {
    pub name: String,
}

/// The form asking to be authorized for a machine by slug.
#[derive(Debug)]
pub struct AuthorizeForMachineInput {
    pub identity_public_key: String,
    pub machine_slug: String,
}

/// One ICE candidate a peer gathered.
#[derive(Debug)]
pub struct IceCandidateInput {
    pub candidate: String,
    pub mid: String,
}

} // verus!
