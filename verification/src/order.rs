//! The total order of capability scopes, the order in which a policy keeps
//! its grants: variants in declaration order, then fields in declaration
//! order, strings by their bytes and string lists lexicographically.
use vstd::prelude::*;
use crate::action::{sb, CapabilityScope, Destination, PathCapability};
use crate::bytes::{bytes_eq, bytes_lt, lex_lt};

verus! {

/// The outcome of a comparison.
#[derive(Debug, Clone, Copy, PartialEq, Eq, Structural)]
pub enum Order {
    Less,
    Equal,
    Greater,
}

/// The first comparison that is not `Equal`.
pub open spec fn then_order(first: Order, next: Order) -> Order {
    if first == Order::Equal {
        next
    } else {
        first
    }
}

/// Byte-wise comparison of two strings.
pub open spec fn str_order(a: String, b: String) -> Order {
    if sb(a) == sb(b) {
        Order::Equal
    } else if lex_lt(sb(a), sb(b)) {
        Order::Less
    } else {
        Order::Greater
    }
}

/// Lexicographic comparison of two string lists.
pub open spec fn strs_order(a: Seq<String>, b: Seq<String>) -> Order
    decreases a.len(),
{
    if a.len() == 0 {
        if b.len() == 0 {
            Order::Equal
        } else {
            Order::Less
        }
    } else if b.len() == 0 {
        Order::Greater
    } else {
        then_order(str_order(a[0], b[0]), strs_order(a.drop_first(), b.drop_first()))
    }
}

pub open spec fn u64_order(a: u64, b: u64) -> Order {
    if a == b {
        Order::Equal
    } else if a < b {
        Order::Less
    } else {
        Order::Greater
    }
}

pub open spec fn destination_order(a: Destination, b: Destination) -> Order {
    then_order(
        str_order(a.scheme, b.scheme),
        then_order(
            str_order(a.host, b.host),
            then_order(u64_order(a.port as u64, b.port as u64), str_order(a.path, b.path)),
        ),
    )
}

pub open spec fn capability_rank(c: PathCapability) -> u64 {
    match c {
        PathCapability::Read => 0,
        PathCapability::ApplyPatch => 1,
    }
}

pub open spec fn scope_rank(s: CapabilityScope) -> u64 {
    match s {
        CapabilityScope::ProjectPaths { .. } => 0,
        CapabilityScope::BrokerCommand { .. } => 1,
        CapabilityScope::Provider { .. } => 2,
        CapabilityScope::Credential { .. } => 3,
        CapabilityScope::Integration { .. } => 4,
    }
}

/// The order of capability scopes.
pub closed spec fn scope_order(a: CapabilityScope, b: CapabilityScope) -> Order {
    match (a, b) {
        (
            CapabilityScope::ProjectPaths { capability: c1, project_id: p1, run_id: r1, worktree_id: w1, paths: s1 },
            CapabilityScope::ProjectPaths { capability: c2, project_id: p2, run_id: r2, worktree_id: w2, paths: s2 },
        ) => then_order(
            u64_order(capability_rank(c1), capability_rank(c2)),
            then_order(
                str_order(p1, p2),
                then_order(str_order(r1, r2), then_order(str_order(w1, w2), strs_order(s1@, s2@))),
            ),
        ),
        (
            CapabilityScope::BrokerCommand { project_id: p1, run_id: r1, worktree_id: w1, catalog_entry_id: e1 },
            CapabilityScope::BrokerCommand { project_id: p2, run_id: r2, worktree_id: w2, catalog_entry_id: e2 },
        ) => then_order(
            str_order(p1, p2),
            then_order(str_order(r1, r2), then_order(str_order(w1, w2), str_order(e1, e2))),
        ),
        (
            CapabilityScope::Provider { project_id: p1, run_id: r1, provider_id: v1, account_id: a1, destination: d1 },
            CapabilityScope::Provider { project_id: p2, run_id: r2, provider_id: v2, account_id: a2, destination: d2 },
        ) => then_order(
            str_order(p1, p2),
            then_order(
                str_order(r1, r2),
                then_order(str_order(v1, v2), then_order(str_order(a1, a2), destination_order(d1, d2))),
            ),
        ),
        (
            CapabilityScope::Credential {
                project_id: p1,
                run_id: r1,
                provider_id: v1,
                account_id: a1,
                credential_ref: c1,
                destination: d1,
            },
            CapabilityScope::Credential {
                project_id: p2,
                run_id: r2,
                provider_id: v2,
                account_id: a2,
                credential_ref: c2,
                destination: d2,
            },
        ) => then_order(
            str_order(p1, p2),
            then_order(
                str_order(r1, r2),
                then_order(
                    str_order(v1, v2),
                    then_order(str_order(a1, a2), then_order(str_order(c1, c2), destination_order(d1, d2))),
                ),
            ),
        ),
        (
            CapabilityScope::Integration { project_id: p1, run_id: r1, worktree_id: w1, target_ref: t1 },
            CapabilityScope::Integration { project_id: p2, run_id: r2, worktree_id: w2, target_ref: t2 },
        ) => then_order(
            str_order(p1, p2),
            then_order(str_order(r1, r2), then_order(str_order(w1, w2), str_order(t1, t2))),
        ),
        _ => u64_order(scope_rank(a), scope_rank(b)),
    }
}

fn compare_str(a: &String, b: &String) -> (r: Order)
    ensures
        r == str_order(*a, *b),
{
    let x = a.as_str().as_bytes();
    let y = b.as_str().as_bytes();
    if bytes_eq(x, y) {
        Order::Equal
    } else if bytes_lt(x, y) {
        Order::Less
    } else {
        Order::Greater
    }
}

fn compare_u64(a: u64, b: u64) -> (r: Order)
    ensures
        r == u64_order(a, b),
{
    if a == b {
        Order::Equal
    } else if a < b {
        Order::Less
    } else {
        Order::Greater
    }
}

fn compare_strs(a: &Vec<String>, b: &Vec<String>) -> (r: Order)
    ensures
        r == strs_order(a@, b@),
{
    let mut i: usize = 0;
    assert(a@.skip(0) =~= a@);
    assert(b@.skip(0) =~= b@);
    while i < a.len() && i < b.len()
        invariant
            i <= a@.len(),
            i <= b@.len(),
            strs_order(a@, b@) == strs_order(a@.skip(i as int), b@.skip(i as int)),
        decreases a.len() - i,
    {
        let ghost sa = a@.skip(i as int);
        let ghost sb2 = b@.skip(i as int);
        let c = compare_str(&a[i], &b[i]);
        assert(sa[0] == a@[i as int]);
        assert(sb2[0] == b@[i as int]);
        if c != Order::Equal {
            return c;
        }
        assert(sa.drop_first() =~= a@.skip(i + 1));
        assert(sb2.drop_first() =~= b@.skip(i + 1));
        i = i + 1;
    }
    if i < a.len() {
        Order::Greater
    } else if i < b.len() {
        Order::Less
    } else {
        Order::Equal
    }
}

fn then_order_exec(first: Order, next: Order) -> (r: Order)
    ensures
        r == then_order(first, next),
{
    match first {
        Order::Equal => next,
        _ => first,
    }
}

fn compare_destination(a: &Destination, b: &Destination) -> (r: Order)
    ensures
        r == destination_order(*a, *b),
{
    then_order_exec(
        compare_str(&a.scheme, &b.scheme),
        then_order_exec(
            compare_str(&a.host, &b.host),
            then_order_exec(compare_u64(a.port as u64, b.port as u64), compare_str(&a.path, &b.path)),
        ),
    )
}

fn rank(s: &CapabilityScope) -> (r: u64)
    ensures
        r == scope_rank(*s),
{
    match s {
        CapabilityScope::ProjectPaths { .. } => 0,
        CapabilityScope::BrokerCommand { .. } => 1,
        CapabilityScope::Provider { .. } => 2,
        CapabilityScope::Credential { .. } => 3,
        CapabilityScope::Integration { .. } => 4,
    }
}

/// Compares two capability scopes in the order of the grant set.
pub fn compare_scope(a: &CapabilityScope, b: &CapabilityScope) -> (r: Order)
    ensures
        r == scope_order(*a, *b),
{
    match (a, b) {
        (
            CapabilityScope::ProjectPaths { capability: c1, project_id: p1, run_id: r1, worktree_id: w1, paths: s1 },
            CapabilityScope::ProjectPaths { capability: c2, project_id: p2, run_id: r2, worktree_id: w2, paths: s2 },
        ) => {
            let k1: u64 = match c1 {
                PathCapability::Read => 0,
                PathCapability::ApplyPatch => 1,
            };
            let k2: u64 = match c2 {
                PathCapability::Read => 0,
                PathCapability::ApplyPatch => 1,
            };
            then_order_exec(
                compare_u64(k1, k2),
                then_order_exec(
                    compare_str(p1, p2),
                    then_order_exec(compare_str(r1, r2), then_order_exec(compare_str(w1, w2), compare_strs(s1, s2))),
                ),
            )
        },
        (
            CapabilityScope::BrokerCommand { project_id: p1, run_id: r1, worktree_id: w1, catalog_entry_id: e1 },
            CapabilityScope::BrokerCommand { project_id: p2, run_id: r2, worktree_id: w2, catalog_entry_id: e2 },
        ) => then_order_exec(
            compare_str(p1, p2),
            then_order_exec(compare_str(r1, r2), then_order_exec(compare_str(w1, w2), compare_str(e1, e2))),
        ),
        (
            CapabilityScope::Provider { project_id: p1, run_id: r1, provider_id: v1, account_id: a1, destination: d1 },
            CapabilityScope::Provider { project_id: p2, run_id: r2, provider_id: v2, account_id: a2, destination: d2 },
        ) => then_order_exec(
            compare_str(p1, p2),
            then_order_exec(
                compare_str(r1, r2),
                then_order_exec(compare_str(v1, v2), then_order_exec(compare_str(a1, a2), compare_destination(d1, d2))),
            ),
        ),
        (
            CapabilityScope::Credential {
                project_id: p1,
                run_id: r1,
                provider_id: v1,
                account_id: a1,
                credential_ref: c1,
                destination: d1,
            },
            CapabilityScope::Credential {
                project_id: p2,
                run_id: r2,
                provider_id: v2,
                account_id: a2,
                credential_ref: c2,
                destination: d2,
            },
        ) => then_order_exec(
            compare_str(p1, p2),
            then_order_exec(
                compare_str(r1, r2),
                then_order_exec(
                    compare_str(v1, v2),
                    then_order_exec(compare_str(a1, a2), then_order_exec(compare_str(c1, c2), compare_destination(d1, d2))),
                ),
            ),
        ),
        (
            CapabilityScope::Integration { project_id: p1, run_id: r1, worktree_id: w1, target_ref: t1 },
            CapabilityScope::Integration { project_id: p2, run_id: r2, worktree_id: w2, target_ref: t2 },
        ) => then_order_exec(
            compare_str(p1, p2),
            then_order_exec(compare_str(r1, r2), then_order_exec(compare_str(w1, w2), compare_str(t1, t2))),
        ),
        _ => compare_u64(rank(a), rank(b)),
    }
}

} // verus!
