use sps2::relocation::{
    check_install_name, check_reference, install_name, rewrite_rpaths, ReferenceProblem,
};

fn strings(items: &[&str]) -> Vec<String> {
    items.iter().map(|s| s.to_string()).collect()
}

#[test]
fn build_time_entries_point_to_the_live_library_directory() {
    let entries = strings(&["/build/pkg/lib", "@loader_path/../lib", "/usr/lib", "/build/pkg"]);
    assert_eq!(
        rewrite_rpaths(&entries, "/build/pkg", "/opt/pm/live"),
        strings(&["/opt/pm/live/lib", "@loader_path/../lib", "/usr/lib", "/opt/pm/live/lib"])
    );
    assert_eq!(rewrite_rpaths(&vec![], "/build/pkg", "/opt/pm/live"), Vec::<String>::new());
}

#[test]
fn relocating_twice_changes_nothing_more() {
    let entries = strings(&["/build/pkg/lib", "/usr/lib"]);
    let once = rewrite_rpaths(&entries, "/build/pkg", "/opt/pm/live");
    assert_eq!(rewrite_rpaths(&once, "/build/pkg", "/opt/pm/live"), once);
    for entry in &once {
        assert_eq!(check_reference(Some(entry), "/build/pkg"), None);
    }
}

#[test]
fn references_that_are_missing_or_point_into_the_build_are_refused() {
    assert_eq!(check_reference(None, "/build/pkg"), Some(ReferenceProblem::Missing));
    assert_eq!(
        check_reference(Some("/build/pkg/lib/libz.dylib"), "/build/pkg"),
        Some(ReferenceProblem::IntoBuild { reference: "/build/pkg/lib/libz.dylib".to_string() })
    );
    assert_eq!(check_reference(Some("/opt/pm/live/lib/libz.dylib"), "/build/pkg"), None);
    assert_eq!(check_reference(Some("/build"), "/build/pkg"), None);
}

#[test]
fn install_names_lie_in_the_live_library_directory() {
    assert_eq!(install_name("/opt/pm/live", "libz.1.dylib"), "/opt/pm/live/lib/libz.1.dylib");
    assert_eq!(
        check_install_name(Some("/opt/pm/live/lib/libz.1.dylib"), "/build/pkg", "/opt/pm/live"),
        None
    );
    assert_eq!(
        check_install_name(None, "/build/pkg", "/opt/pm/live"),
        Some(ReferenceProblem::Missing)
    );
    assert_eq!(
        check_install_name(Some("/build/pkg/lib/libz.dylib"), "/build/pkg", "/opt/pm/live"),
        Some(ReferenceProblem::IntoBuild { reference: "/build/pkg/lib/libz.dylib".to_string() })
    );
    assert_eq!(
        check_install_name(Some("@rpath/libz.dylib"), "/build/pkg", "/opt/pm/live"),
        Some(ReferenceProblem::OutsideLibDir { reference: "@rpath/libz.dylib".to_string() })
    );
    assert_eq!(
        check_install_name(Some("/opt/pm/live/libexec/libz.dylib"), "/build/pkg", "/opt/pm/live"),
        Some(ReferenceProblem::OutsideLibDir {
            reference: "/opt/pm/live/libexec/libz.dylib".to_string()
        })
    );
    assert_eq!(
        check_install_name(Some("/opt/pm/live/lib"), "/build/pkg", "/opt/pm/live"),
        Some(ReferenceProblem::OutsideLibDir { reference: "/opt/pm/live/lib".to_string() })
    );
}
