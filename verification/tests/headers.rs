use sps2::headers::{patch_header, HeaderPatcher};

const PREFIX: &str = "/tmp/build-123";

#[test]
fn quoted_include_under_the_prefix_is_rewritten() {
    let src = "#pragma once\n#include \"/tmp/build-123/include/foo/bar.h\"\nint x;\n";
    assert_eq!(
        patch_header(src, PREFIX).unwrap(),
        "#pragma once\n#include \"include/foo/bar.h\"\nint x;\n"
    );
}

#[test]
fn spacing_is_normalised() {
    assert_eq!(
        patch_header("#  include   \"/tmp/build-123/a.h\"", PREFIX).unwrap(),
        "#include \"a.h\""
    );
    assert_eq!(
        patch_header("#include\"/tmp/build-123//deep/a.h\"", PREFIX).unwrap(),
        "#include \"deep/a.h\""
    );
    assert_eq!(
        patch_header("#\tinclude\t\"/tmp/build-123/tmp/build-123/a.h\"", PREFIX).unwrap(),
        "#include \"a.h\""
    );
}

#[test]
fn several_includes_in_one_file() {
    let src = "#include \"/tmp/build-123/a.h\"\n#include <stdio.h>\n#include \"local.h\"\n\
               #include \"/tmp/build-123/lib/b.h\" // tail\n";
    assert_eq!(
        HeaderPatcher::patch(src, PREFIX).unwrap(),
        "#include \"a.h\"\n#include <stdio.h>\n#include \"local.h\"\n#include \"lib/b.h\" // tail\n"
    );
}

#[test]
fn other_files_are_left_alone() {
    for src in [
        "",
        "int main(void) { return 0; }\n",
        "#include <tmp/build-123/a.h>\n",
        "#include \"/opt/other/a.h\"\n",
        "#include \"/tmp/build-123\"\n",
        "#include \"/tmp/build-123/unterminated\n",
        "include \"/tmp/build-123/a.h\"\n",
        "#includes \"/tmp/build-123/a.h\"\n",
        "# /tmp/build-123/a.h\n",
    ] {
        assert_eq!(patch_header(src, PREFIX), None, "{src:?}");
    }
}

#[test]
fn patcher_metadata() {
    assert_eq!(HeaderPatcher::name(), "Header include-fixer");
    assert_eq!(
        HeaderPatcher::header_roots("/b/stage"),
        vec!["/b/stage/include".to_string(), "/b/stage/Headers".to_string()]
    );
    let report = HeaderPatcher::report(vec!["/b/stage/include/a.h".to_string()]);
    assert_eq!(report.changed_files, vec!["/b/stage/include/a.h"]);
}
