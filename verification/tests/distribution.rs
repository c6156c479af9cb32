use briefing::distribution::{current, Distribution};

#[test]
fn current_tells_arch_from_its_kernel() {
    let description =
        "Linux host 5.2.9-arch1-1-ARCH #1 SMP PREEMPT Fri Aug 16 11:29:43 UTC 2019 x86_64 GNU/Linux";
    assert_eq!(current(description), Some(Distribution::Arch));
}

#[test]
fn current_ignores_case() {
    assert_eq!(current("Linux host 5.2.9-ARCH"), Some(Distribution::Arch));
    assert_eq!(current("Linux host 5.2.9-Arch"), Some(Distribution::Arch));
    assert_eq!(current("ARCH"), Some(Distribution::Arch));
}

#[test]
fn current_knows_no_other_distribution() {
    assert_eq!(current("Linux host 5.0.0-25-generic #26-Ubuntu SMP x86_64 GNU/Linux"), None);
    assert_eq!(current(""), None);
    assert_eq!(current("Darwin host 18.7.0"), None);
}

#[test]
fn from_lowercase_looks_for_the_word_as_it_stands() {
    assert_eq!(Distribution::from_lowercase("linux host 5.2.9-arch1-1-arch"), Some(Distribution::Arch));
    assert_eq!(Distribution::from_lowercase("linux host 5.2.9-ARCH"), None);
    assert_eq!(Distribution::from_lowercase("linux aarch64"), Some(Distribution::Arch));
    assert_eq!(Distribution::from_lowercase(""), None);
}
