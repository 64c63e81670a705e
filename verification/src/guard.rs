//! The guard process's side of sandbox construction.
//!
//! A guard is the spawned process that owns the new namespaces. Its setup is
//! a fixed sequence of steps whose order is load-bearing: entering the user
//! namespace revokes the privilege every earlier mount step needs, so it
//! comes last, directly before success is reported. This module builds the
//! guard's 16-byte display identity, plans the construction sequence as an
//! explicit command list, and decides when a running guard has become the
//! only process left in its pid namespace.

use vstd::prelude::*;
use crate::bytesfmt::{parse_u32_dec, push_all, push_all_slice};
use crate::errors::{EMAKE_PRIVATE, EMNT_LOOP, EMNT_OVERLAY, EMNT_PROC, ESET_PROCNAME,
    EUNSHARE_USER, SUCCESS};
use vstd::string::StringSliceAdditionalSpecFns;

verus! {

/// Byte length of a guard's display identity, terminator included.
pub const GUARD_NAME_LEN: usize = 16;

/// Seconds a supervising guard sleeps between checks that it is the last
/// process left in its pid namespace.
pub const SUPERVISE_INTERVAL_SECS: u64 = 20;

/// Counter values below this bound (255 to the 15th power) get pairwise
/// distinct identities; the server's descending 64-bit counter stays far
/// below it.
pub const GUARD_COUNTER_BOUND: u128 = 0xf1673e495873f60f7eb5acc6970eff;

/// `c` with its low `i` base-255 digits removed.
pub open spec fn spec_div255(c: u128, i: int) -> u128
    decreases i,
{
    if i <= 0 {
        c
    } else {
        spec_div255(c, i - 1) / 255
    }
}

/// Base-255 digit `i` of `c`, least significant first.
pub open spec fn spec_digit255(c: u128, i: int) -> u128 {
    spec_div255(c, i) % 255
}

/// The display identity generated from counter value `c`: the counter's
/// fifteen base-255 digits, least significant first, each offset by one so
/// that no byte is a raw zero, closed by the NUL terminator. The offset
/// digits determine the counter again, so distinct counters below
/// `GUARD_COUNTER_BOUND` get distinct identities.
pub open spec fn spec_guard_name(c: u128) -> Seq<u8> {
    Seq::new(
        GUARD_NAME_LEN as nat,
        |i: int|
            if i == 15 {
                0u8
            } else {
                (spec_digit255(c, i) + 1) as u8
            },
    )
}

/// A well-formed identity: 16 bytes, no raw zero byte except the final
/// terminator.
pub open spec fn spec_name_wf(s: Seq<u8>) -> bool {
    &&& s.len() == GUARD_NAME_LEN
    &&& s[15] == 0
    &&& forall|i: int| 0 <= i < 15 ==> s[i] != 0
}

/// Builds the display identity for counter value `c`.
pub fn guard_name_bytes(c: u128) -> (r: Vec<u8>)
    ensures
        r@ == spec_guard_name(c),
        spec_name_wf(r@),
{
    let mut v: Vec<u8> = Vec::new();
    let mut x: u128 = c;
    let mut i: usize = 0;
    while i < 15
        invariant
            0 <= i <= 15,
            x == spec_div255(c, i as int),
            v@.len() == i,
            forall|j: int| 0 <= j < i ==> v@[j] == spec_guard_name(c)[j],
        decreases 15 - i,
    {
        let d = (x % 255) as u8;
        v.push(d + 1);
        proof {
            assert(spec_div255(c, i as int + 1) == spec_div255(c, i as int) / 255);
        }
        x = x / 255;
        i = i + 1;
    }
    v.push(0u8);
    proof {
        assert(v@ =~= spec_guard_name(c));
    }
    v
}

/// 255 to the `k`th power.
spec fn spec_pow255(k: int) -> int
    decreases k,
{
    if k <= 0 {
        1
    } else {
        255 * spec_pow255(k - 1)
    }
}

/// The named counter bound is 255 to the 15th power.
proof fn lemma_counter_bound()
    ensures
        GUARD_COUNTER_BOUND == spec_pow255(15),
{
    assert(spec_pow255(0) == 1);
    assert(spec_pow255(1) == 255);
    assert(spec_pow255(2) == 65025);
    assert(spec_pow255(3) == 16581375);
    assert(spec_pow255(4) == 4228250625);
    assert(spec_pow255(5) == 1078203909375);
    assert(spec_pow255(6) == 274941996890625);
    assert(spec_pow255(7) == 70110209207109375);
    assert(spec_pow255(8) == 17878103347812890625);
    assert(spec_pow255(9) == 4558916353692287109375);
    assert(spec_pow255(10) == 1162523670191533212890625);
    assert(spec_pow255(11) == 296443535898840969287109375);
    assert(spec_pow255(12) == 75593101654204447168212890625);
    assert(spec_pow255(13) == 19276240921822134027894287109375);
    assert(spec_pow255(14) == 4915441435064644177113043212890625);
    assert(spec_pow255(15) == 1253437565941484265163826019287109375);
}

/// Removing one digit shifts the remaining digits down.
proof fn lemma_div255_shift(c: u128, i: int)
    requires
        i >= 0,
    ensures
        spec_div255(c, i + 1) == spec_div255(c / 255, i),
    decreases i,
{
    if i > 0 {
        lemma_div255_shift(c, i - 1);
        assert(spec_div255(c, i + 1) == spec_div255(c, i) / 255);
        assert(spec_div255(c / 255, i) == spec_div255(c / 255, i - 1) / 255);
    } else {
        assert(spec_div255(c, 1) == spec_div255(c, 0) / 255);
    }
}

/// A number below 255 to the `k`th power is determined by its first `k`
/// base-255 digits.
proof fn lemma_digits255_inject(a: u128, b: u128, k: int)
    requires
        0 <= k,
        a < spec_pow255(k),
        b < spec_pow255(k),
        forall|i: int| 0 <= i < k ==> spec_digit255(a, i) == spec_digit255(b, i),
    ensures
        a == b,
    decreases k,
{
    if k == 0 {
        assert(a == 0 && b == 0);
    } else {
        assert(spec_digit255(a, 0) == spec_digit255(b, 0));
        assert(a % 255 == b % 255);
        let a1 = a / 255;
        let b1 = b / 255;
        assert(a1 < spec_pow255(k - 1)) by {
            vstd::arithmetic::div_mod::lemma_multiply_divide_lt(
                a as int,
                255,
                spec_pow255(k - 1),
            );
        }
        assert(b1 < spec_pow255(k - 1)) by {
            vstd::arithmetic::div_mod::lemma_multiply_divide_lt(
                b as int,
                255,
                spec_pow255(k - 1),
            );
        }
        assert forall|i: int| 0 <= i < k - 1 implies spec_digit255(a1, i) == spec_digit255(
            b1,
            i,
        ) by {
            lemma_div255_shift(a, i);
            lemma_div255_shift(b, i);
            assert(spec_digit255(a, i + 1) == spec_digit255(a1, i));
            assert(spec_digit255(b, i + 1) == spec_digit255(b1, i));
        }
        lemma_digits255_inject(a1, b1, k - 1);
        vstd::arithmetic::div_mod::lemma_fundamental_div_mod(a as int, 255);
        vstd::arithmetic::div_mod::lemma_fundamental_div_mod(b as int, 255);
    }
}

/// Guard identities are unique: two counter values below the bound that
/// yield the same identity are the same value, so the server's decreasing
/// counter never hands two sandboxes the same name.
pub proof fn lemma_guard_name_injective(a: u128, b: u128)
    requires
        a < GUARD_COUNTER_BOUND,
        b < GUARD_COUNTER_BOUND,
        spec_guard_name(a) == spec_guard_name(b),
    ensures
        a == b,
{
    lemma_counter_bound();
    assert forall|i: int| 0 <= i < 15 implies spec_digit255(a, i) == spec_digit255(b, i) by {
        assert(spec_guard_name(a)[i] == spec_guard_name(b)[i]);
        assert(spec_guard_name(a)[i] == (spec_digit255(a, i) + 1) as u8);
        assert(spec_guard_name(b)[i] == (spec_digit255(b, i) + 1) as u8);
        assert(spec_digit255(a, i) < 255);
        assert(spec_digit255(b, i) < 255);
        assert(((spec_digit255(a, i) + 1) as u8) as int == spec_digit255(a, i) + 1);
        assert(((spec_digit255(b, i) + 1) as u8) as int == spec_digit255(b, i) + 1);
    }
    lemma_digits255_inject(a, b, 15);
}

/// One step of the guard's construction sequence.
#[derive(Debug, PartialEq, Eq)]
pub enum GuardCmd {
    /// Make the root mount private and recursive.
    MakePrivate,
    /// Set the guard's display identity to the given 16 bytes.
    SetName { name: Vec<u8> },
    /// Mount a fresh isolated procfs over the guard's view of `/proc`.
    MountProc,
    /// Allocate a loop device, bind the package file to it, mount it
    /// read-only on the exec directory, and report the allocated id.
    MountLoop { pkg: Vec<u8>, exec_dir: Vec<u8> },
    /// Create an overlay scratch directory, parents included.
    MakeDir { path: Vec<u8> },
    /// Mount a writable overlay over the target directory.
    MountOverlay { target: Vec<u8>, mount_data: Vec<u8> },
    /// Enter a new user namespace, dropping privilege.
    UnshareUser,
    /// Report successful construction to the master.
    ReportSuccess,
}

/// The mathematical content of one construction step.
#[verifier::ext_equal]
pub ghost enum GuardStep {
    MakePrivate,
    SetName { name: Seq<u8> },
    MountProc,
    MountLoop { pkg: Seq<u8>, exec_dir: Seq<u8> },
    MakeDir { path: Seq<u8> },
    MountOverlay { target: Seq<u8>, mount_data: Seq<u8> },
    UnshareUser,
    ReportSuccess,
}

impl View for GuardCmd {
    type V = GuardStep;

    open spec fn view(&self) -> GuardStep {
        match self {
            GuardCmd::MakePrivate => GuardStep::MakePrivate,
            GuardCmd::SetName { name } => GuardStep::SetName { name: name@ },
            GuardCmd::MountProc => GuardStep::MountProc,
            GuardCmd::MountLoop { pkg, exec_dir } => GuardStep::MountLoop {
                pkg: pkg@,
                exec_dir: exec_dir@,
            },
            GuardCmd::MakeDir { path } => GuardStep::MakeDir { path: path@ },
            GuardCmd::MountOverlay { target, mount_data } => GuardStep::MountOverlay {
                target: target@,
                mount_data: mount_data@,
            },
            GuardCmd::UnshareUser => GuardStep::UnshareUser,
            GuardCmd::ReportSuccess => GuardStep::ReportSuccess,
        }
    }
}

impl DeepView for GuardCmd {
    type V = GuardStep;

    open spec fn deep_view(&self) -> GuardStep {
        self@
    }
}

/// The scratch directory that backs writes to overlay target `d`.
pub open spec fn spec_upper_dir(data_dir: Seq<u8>, d: Seq<u8>) -> Seq<u8> {
    data_dir + "/.upperdir____".spec_bytes() + d
}

/// The overlay work directory for target `d`.
pub open spec fn spec_work_dir(data_dir: Seq<u8>, d: Seq<u8>) -> Seq<u8> {
    data_dir + "/.workdir____".spec_bytes() + d
}

/// The mount options of the overlay over target `d`: the target itself as
/// the read-only lower layer, with its upper and work directories.
pub open spec fn spec_overlay_data(data_dir: Seq<u8>, d: Seq<u8>) -> Seq<u8> {
    "lowerdir=".spec_bytes() + d + ",upperdir=".spec_bytes() + spec_upper_dir(data_dir, d)
        + ",workdir=".spec_bytes() + spec_work_dir(data_dir, d)
}

/// The three steps that build the overlay over target `d`.
pub open spec fn spec_overlay_triple(data_dir: Seq<u8>, d: Seq<u8>) -> Seq<GuardStep> {
    seq![
        GuardStep::MakeDir { path: spec_upper_dir(data_dir, d) },
        GuardStep::MakeDir { path: spec_work_dir(data_dir, d) },
        GuardStep::MountOverlay { target: d, mount_data: spec_overlay_data(data_dir, d) },
    ]
}

/// The overlay steps of the first `k` configured overlay directories.
pub open spec fn spec_overlay_steps(data_dir: Seq<u8>, ovs: Seq<Seq<u8>>, k: int) -> Seq<GuardStep>
    decreases k,
{
    if k <= 0 {
        Seq::empty()
    } else {
        spec_overlay_steps(data_dir, ovs, k - 1) + spec_overlay_triple(data_dir, ovs[k - 1])
    }
}

/// The guard's whole construction sequence: root made private, identity
/// set, procfs mounted, package mounted via a loop device, the overlays
/// built in configuration order, the user namespace entered last of all
/// privileged steps, and success reported at the very end.
pub open spec fn spec_guard_script(
    name: Seq<u8>,
    pkg: Seq<u8>,
    exec_dir: Seq<u8>,
    data_dir: Seq<u8>,
    ovs: Seq<Seq<u8>>,
) -> Seq<GuardStep> {
    seq![
        GuardStep::MakePrivate,
        GuardStep::SetName { name: name },
        GuardStep::MountProc,
        GuardStep::MountLoop { pkg: pkg, exec_dir: exec_dir },
    ] + spec_overlay_steps(data_dir, ovs, ovs.len() as int) + seq![
        GuardStep::UnshareUser,
        GuardStep::ReportSuccess,
    ]
}

/// Builds the scratch directory path backing writes to overlay target `d`.
pub fn upper_dir(data_dir: &Vec<u8>, d: &Vec<u8>) -> (r: Vec<u8>)
    ensures
        r@ == spec_upper_dir(data_dir@, d@),
{
    let mut v: Vec<u8> = Vec::new();
    push_all(&mut v, data_dir);
    push_all_slice(&mut v, "/.upperdir____".as_bytes());
    push_all(&mut v, d);
    v
}

/// Builds the overlay work directory path for target `d`.
pub fn work_dir(data_dir: &Vec<u8>, d: &Vec<u8>) -> (r: Vec<u8>)
    ensures
        r@ == spec_work_dir(data_dir@, d@),
{
    let mut v: Vec<u8> = Vec::new();
    push_all(&mut v, data_dir);
    push_all_slice(&mut v, "/.workdir____".as_bytes());
    push_all(&mut v, d);
    v
}

/// Builds the overlay mount options for target `d`.
pub fn overlay_data(data_dir: &Vec<u8>, d: &Vec<u8>) -> (r: Vec<u8>)
    ensures
        r@ == spec_overlay_data(data_dir@, d@),
{
    let mut v: Vec<u8> = Vec::new();
    push_all_slice(&mut v, "lowerdir=".as_bytes());
    push_all(&mut v, d);
    push_all_slice(&mut v, ",upperdir=".as_bytes());
    let up = upper_dir(data_dir, d);
    push_all(&mut v, &up);
    push_all_slice(&mut v, ",workdir=".as_bytes());
    let wk = work_dir(data_dir, d);
    push_all(&mut v, &wk);
    v
}

/// Plans the guard's construction sequence for the given identity, package
/// path, exec directory, data directory and overlay targets.
#[verifier::loop_isolation(false)]
pub fn guard_script(
    name: &Vec<u8>,
    pkg: &Vec<u8>,
    exec_dir: &Vec<u8>,
    data_dir: &Vec<u8>,
    overlays: &Vec<Vec<u8>>,
) -> (r: Vec<GuardCmd>)
    ensures
        r.deep_view() == spec_guard_script(name@, pkg@, exec_dir@, data_dir@, overlays.deep_view()),
{
    let ghost ovs = overlays.deep_view();
    let mut r: Vec<GuardCmd> = Vec::new();
    r.push(GuardCmd::MakePrivate);
    r.push(GuardCmd::SetName { name: clone_bytes(name) });
    r.push(GuardCmd::MountProc);
    r.push(GuardCmd::MountLoop { pkg: clone_bytes(pkg), exec_dir: clone_bytes(exec_dir) });
    let ghost head = r.deep_view();
    proof {
        assert(head =~~= seq![
            GuardStep::MakePrivate,
            GuardStep::SetName { name: name@ },
            GuardStep::MountProc,
            GuardStep::MountLoop { pkg: pkg@, exec_dir: exec_dir@ },
        ]);
    }
    let mut i: usize = 0;
    while i < overlays.len()
        invariant
            0 <= i <= ovs.len(),
            r.deep_view() == head + spec_overlay_steps(data_dir@, ovs, i as int),
        decreases ovs.len() - i,
    {
        let d = &overlays[i];
        proof {
            assert(d@ == ovs[i as int]);
        }
        let ghost prev = r.deep_view();
        let c1 = GuardCmd::MakeDir { path: upper_dir(data_dir, d) };
        let c2 = GuardCmd::MakeDir { path: work_dir(data_dir, d) };
        let c3 = GuardCmd::MountOverlay { target: clone_bytes(d), mount_data: overlay_data(
            data_dir,
            d,
        ) };
        proof {
            assert(c1@ == GuardStep::MakeDir { path: spec_upper_dir(data_dir@, ovs[i as int]) });
            assert(c2@ == GuardStep::MakeDir { path: spec_work_dir(data_dir@, ovs[i as int]) });
            assert(c3@ == GuardStep::MountOverlay {
                target: ovs[i as int],
                mount_data: spec_overlay_data(data_dir@, ovs[i as int]),
            });
        }
        r.push(c1);
        r.push(c2);
        r.push(c3);
        proof {
            assert(r.deep_view() =~~= prev + spec_overlay_triple(data_dir@, ovs[i as int]));
            assert(r.deep_view() =~~= head + spec_overlay_steps(data_dir@, ovs, i as int + 1));
        }
        i = i + 1;
    }
    r.push(GuardCmd::UnshareUser);
    r.push(GuardCmd::ReportSuccess);
    proof {
        assert(r.deep_view() =~~= spec_guard_script(name@, pkg@, exec_dir@, data_dir@, ovs));
    }
    r
}

/// Copies a byte vector.
fn clone_bytes(v: &Vec<u8>) -> (r: Vec<u8>)
    ensures
        r@ == v@,
{
    let mut r: Vec<u8> = Vec::new();
    push_all(&mut r, v);
    r
}

/// The status code a guard sends when the given step fails.
pub open spec fn spec_fail_code(s: GuardStep) -> i32 {
    match s {
        GuardStep::MakePrivate => EMAKE_PRIVATE,
        GuardStep::SetName { .. } => ESET_PROCNAME,
        GuardStep::MountProc => EMNT_PROC,
        GuardStep::MountLoop { .. } => EMNT_LOOP,
        GuardStep::MakeDir { .. } => EMNT_OVERLAY,
        GuardStep::MountOverlay { .. } => EMNT_OVERLAY,
        GuardStep::UnshareUser => EUNSHARE_USER,
        GuardStep::ReportSuccess => SUCCESS,
    }
}

/// Reports the status code the guard must send when `c` fails.
pub fn fail_code(c: &GuardCmd) -> (r: i32)
    ensures
        r == spec_fail_code(c@),
{
    match c {
        GuardCmd::MakePrivate => EMAKE_PRIVATE,
        GuardCmd::SetName { .. } => ESET_PROCNAME,
        GuardCmd::MountProc => EMNT_PROC,
        GuardCmd::MountLoop { .. } => EMNT_LOOP,
        GuardCmd::MakeDir { .. } => EMNT_OVERLAY,
        GuardCmd::MountOverlay { .. } => EMNT_OVERLAY,
        GuardCmd::UnshareUser => EUNSHARE_USER,
        GuardCmd::ReportSuccess => SUCCESS,
    }
}

/// The overlay steps only create directories and mount overlays.
proof fn lemma_overlay_steps_shape(data_dir: Seq<u8>, ovs: Seq<Seq<u8>>, k: int)
    requires
        k >= 0,
    ensures
        spec_overlay_steps(data_dir, ovs, k).len() == 3 * k,
        forall|i: int|
            0 <= i < 3 * k ==> (#[trigger] spec_overlay_steps(data_dir, ovs, k)[i] is MakeDir
                || spec_overlay_steps(data_dir, ovs, k)[i] is MountOverlay),
    decreases k,
{
    if k > 0 {
        lemma_overlay_steps_shape(data_dir, ovs, k - 1);
    }
}

/// Privilege is dropped last: in every construction sequence the user
/// namespace is entered after every other step, success is reported at the
/// very end, and neither occurs anywhere earlier.
pub proof fn lemma_privilege_dropped_last(
    name: Seq<u8>,
    pkg: Seq<u8>,
    exec_dir: Seq<u8>,
    data_dir: Seq<u8>,
    ovs: Seq<Seq<u8>>,
)
    ensures
        spec_guard_script(name, pkg, exec_dir, data_dir, ovs).len() == 6 + 3 * ovs.len(),
        spec_guard_script(name, pkg, exec_dir, data_dir, ovs).last() == GuardStep::ReportSuccess,
        spec_guard_script(name, pkg, exec_dir, data_dir, ovs)[spec_guard_script(
            name,
            pkg,
            exec_dir,
            data_dir,
            ovs,
        ).len() - 2] == GuardStep::UnshareUser,
        forall|i: int|
            0 <= i < spec_guard_script(name, pkg, exec_dir, data_dir, ovs).len() - 2 ==> !(
            #[trigger] spec_guard_script(name, pkg, exec_dir, data_dir, ovs)[i] is UnshareUser)
                && !(spec_guard_script(name, pkg, exec_dir, data_dir, ovs)[i] is ReportSuccess),
{
    let s = spec_guard_script(name, pkg, exec_dir, data_dir, ovs);
    lemma_overlay_steps_shape(data_dir, ovs, ovs.len() as int);
    assert(s.len() == 6 + 3 * ovs.len());
    assert forall|i: int| 0 <= i < s.len() - 2 implies !(#[trigger] s[i] is UnshareUser) && !(
    s[i] is ReportSuccess) by {
        if i >= 4 {
            assert(s[i] == spec_overlay_steps(data_dir, ovs, ovs.len() as int)[i - 4]);
        }
    }
}

/// A configuration with no overlay directories plans a construction
/// sequence with no overlay step at all: the root is made private, the
/// identity set, procfs and the package mounted, the user namespace
/// entered, success reported — nothing else.
pub proof fn lemma_no_overlays_no_mounts(
    name: Seq<u8>,
    pkg: Seq<u8>,
    exec_dir: Seq<u8>,
    data_dir: Seq<u8>,
    ovs: Seq<Seq<u8>>,
)
    requires
        ovs.len() == 0,
    ensures
        spec_guard_script(name, pkg, exec_dir, data_dir, ovs) == seq![
            GuardStep::MakePrivate,
            GuardStep::SetName { name: name },
            GuardStep::MountProc,
            GuardStep::MountLoop { pkg: pkg, exec_dir: exec_dir },
            GuardStep::UnshareUser,
            GuardStep::ReportSuccess,
        ],
{
    assert(spec_guard_script(name, pkg, exec_dir, data_dir, ovs) =~= seq![
        GuardStep::MakePrivate,
        GuardStep::SetName { name: name },
        GuardStep::MountProc,
        GuardStep::MountLoop { pkg: pkg, exec_dir: exec_dir },
        GuardStep::UnshareUser,
        GuardStep::ReportSuccess,
    ]);
}

/// Whether a list of process directory names shows the guard alone in its
/// pid namespace: every name that parses as a process id is id 1.
pub open spec fn spec_alone(names: Seq<Seq<u8>>) -> bool {
    forall|i: int|
        0 <= i < names.len() ==> ((#[trigger] names[i]).len() > 0 && crate::bytesfmt::spec_all_digits(
            names[i],
        ) && crate::bytesfmt::spec_dec_val(names[i]) <= u32::MAX
            ==> crate::bytesfmt::spec_dec_val(names[i]) == 1)
}

/// Decides from the entry names of the guard's process directory whether
/// all spawned application processes have exited, leaving the guard (seen
/// as process 1 of its own namespace) alone.
#[verifier::loop_isolation(false)]
pub fn alone_check(names: &Vec<Vec<u8>>) -> (r: bool)
    ensures
        r == spec_alone(names.deep_view()),
{
    let ghost nv = names.deep_view();
    let mut i: usize = 0;
    while i < names.len()
        invariant
            0 <= i <= nv.len(),
            forall|j: int|
                0 <= j < i ==> ((#[trigger] nv[j]).len() > 0 && crate::bytesfmt::spec_all_digits(
                    nv[j],
                ) && crate::bytesfmt::spec_dec_val(nv[j]) <= u32::MAX
                    ==> crate::bytesfmt::spec_dec_val(nv[j]) == 1),
        decreases nv.len() - i,
    {
        proof {
            assert(names[i as int]@ == nv[i as int]);
        }
        match parse_u32_dec(&names[i]) {
            Some(pid) => {
                if pid != 1 {
                    assert(!spec_alone(nv)) by {
                        assert(crate::bytesfmt::spec_dec_val(nv[i as int]) == pid);
                    }
                    return false;
                }
            },
            None => {},
        }
        i = i + 1;
    }
    true
}

} // verus!
