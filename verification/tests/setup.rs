use the_hard_way::setup::{extension_names, runtime_satisfied, Version, SPACE};

fn names(list: &str) -> Vec<String> {
    extension_names(list.as_bytes())
        .into_iter()
        .map(|name| String::from_utf8(name).unwrap())
        .collect()
}

fn version(major: u16, minor: u16, patch: u32) -> Version {
    Version { major, minor, patch }
}

#[test]
fn extension_names_are_split_at_spaces() {
    assert_eq!(
        names("VK_KHR_surface VK_KHR_swapchain VK_EXT_debug_utils"),
        vec!["VK_KHR_surface", "VK_KHR_swapchain", "VK_EXT_debug_utils"]
    );
    assert_eq!(names("VK_KHR_surface"), vec!["VK_KHR_surface"]);
}

#[test]
fn every_space_separates_two_names_even_empty_ones() {
    assert_eq!(names(""), vec![""]);
    assert_eq!(names(" "), vec!["", ""]);
    assert_eq!(names("a  b "), vec!["a", "", "b", ""]);
    assert_eq!(names(" a"), vec!["", "a"]);
}

#[test]
fn extension_names_agree_with_the_standard_split() {
    assert_eq!(SPACE, b' ');
    for list in ["", "x", "x y", " x  y ", "VK_A VK_B\tVK_C VK_D\0 E", "   "] {
        let expected: Vec<&str> = list.split(' ').collect();
        assert_eq!(names(list), expected);
        assert_eq!(names(list).join(" "), list);
    }
}

#[test]
fn runtime_is_satisfied_by_its_own_version_and_by_later_ones() {
    assert!(runtime_satisfied(version(1, 1, 0), version(1, 1, 0)));
    assert!(runtime_satisfied(version(1, 1, 0), version(1, 2, 0)));
    assert!(runtime_satisfied(version(1, 1, 7), version(2, 0, 0)));
    assert!(runtime_satisfied(version(1, 1, 7), version(1, 1, 8)));
    assert!(runtime_satisfied(version(0, 65535, u32::MAX), version(1, 0, 0)));
}

#[test]
fn runtime_is_not_satisfied_by_an_earlier_version() {
    assert!(!runtime_satisfied(version(1, 1, 0), version(1, 0, 0)));
    assert!(!runtime_satisfied(version(2, 0, 0), version(1, 9, 9)));
    assert!(!runtime_satisfied(version(1, 1, 1), version(1, 1, 0)));
    assert!(!runtime_satisfied(version(1, 0, 0), version(0, 65535, u32::MAX)));
}

#[test]
fn versions_are_ordered_as_the_runtime_orders_them() {
    let all = [
        version(0, 0, 0),
        version(0, 0, 1),
        version(0, 1, 0),
        version(1, 0, 0),
        version(1, 0, u32::MAX),
        version(1, 1, 0),
        version(65535, 65535, u32::MAX),
    ];
    for required in all {
        for supported in all {
            let theirs = openxr::Version::new(required.major, required.minor, required.patch)
                > openxr::Version::new(supported.major, supported.minor, supported.patch);
            assert_eq!(runtime_satisfied(required, supported), !theirs);
            let ours = (required.major, required.minor, required.patch)
                > (supported.major, supported.minor, supported.patch);
            assert_eq!(runtime_satisfied(required, supported), !ours);
        }
    }
}
