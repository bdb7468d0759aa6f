use ringexec::cpu_set_of;

#[test]
fn cpu_set_holds_the_given_cpus() {
    let set = cpu_set_of(&vec![0, 2, 2]).unwrap();
    assert!(set.is_set(0).unwrap());
    assert!(!set.is_set(1).unwrap());
    assert!(set.is_set(2).unwrap());
}

#[test]
fn empty_cpu_list_gives_empty_set() {
    let set = cpu_set_of(&Vec::new()).unwrap();
    assert!(!set.is_set(0).unwrap());
}

#[test]
fn cpu_beyond_the_set_is_refused() {
    let too_far = nix::sched::CpuSet::count();
    assert_eq!(cpu_set_of(&vec![1, too_far]), Err(nix::errno::Errno::EINVAL));
}

#[test]
fn cpu_set_size_matches_nix() {
    assert_eq!(ringexec::CPU_SETSIZE, nix::sched::CpuSet::count());
    assert!(cpu_set_of(&vec![ringexec::CPU_SETSIZE - 1]).is_ok());
}
