use vstd::prelude::*;

verus! {

#[verifier::external_type_specification]
#[verifier::external_body]
pub struct ExCpuSet(nix::sched::CpuSet);

#[verifier::external_type_specification]
#[verifier::external_body]
pub struct ExErrno(nix::errno::Errno);

/// How many CPUs a set can hold: `CpuSet::count()`, eight times the size
/// of Linux's `cpu_set_t`, which is sixteen 64-bit words.
pub const CPU_SETSIZE: usize = 1024;

/// The CPUs that a set holds.
pub uninterp spec fn cpus_of(set: nix::sched::CpuSet) -> Set<usize>;

/// Relies on nix::sched::CpuSet::new: a set with no CPU in it.
#[verifier::external_body]
fn cpu_set_new() -> (r: nix::sched::CpuSet)
    ensures
        cpus_of(r) == Set::<usize>::empty(),
{
    nix::sched::CpuSet::new()
}

/// Relies on nix::sched::CpuSet::set: adds `cpu`, or refuses it with
/// `EINVAL`, leaving the set as it was, when it is not below
/// `CpuSet::count()`.
#[verifier::external_body]
fn cpu_set_add(set: &mut nix::sched::CpuSet, cpu: usize) -> (r: Result<(), nix::errno::Errno>)
    ensures
        r is Ok <==> cpu < CPU_SETSIZE,
        r is Ok ==> cpus_of(*final(set)) == cpus_of(*old(set)).insert(cpu),
        r is Err ==> cpus_of(*final(set)) == cpus_of(*old(set)),
{
    set.set(cpu)
}

/// The CPU set holding exactly `cpus`, for pinning a thread to them, or
/// the error with which the set refused one of them: it fails exactly when
/// some CPU index is not below `CPU_SETSIZE`.
pub fn cpu_set_of(cpus: &Vec<usize>) -> (r: Result<nix::sched::CpuSet, nix::errno::Errno>)
    ensures
        r is Ok <==> forall|i: int| 0 <= i < cpus@.len() ==> #[trigger] cpus@[i] < CPU_SETSIZE,
        r matches Ok(set) ==> cpus_of(set) == cpus@.to_set(),
{
    let mut set = cpu_set_new();
    let mut i: usize = 0;
    while i < cpus.len()
        invariant
            i <= cpus@.len(),
            cpus_of(set) == cpus@.take(i as int).to_set(),
            forall|j: int| 0 <= j < i ==> #[trigger] cpus@[j] < CPU_SETSIZE,
        decreases cpus@.len() - i,
    {
        match cpu_set_add(&mut set, cpus[i]) {
            Ok(()) => {},
            Err(e) => {
                return Err(e);
            },
        }
        proof {
            cpus@.take(i as int).lemma_push_to_set_commute(cpus@[i as int]);
            assert(cpus@.take(i + 1) =~= cpus@.take(i as int).push(cpus@[i as int]));
        }
        i = i + 1;
    }
    assert(cpus@.take(i as int) =~= cpus@);
    Ok(set)
}

} // verus!
