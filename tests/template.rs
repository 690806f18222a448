use scalar_autograd::{is_well_formed_template, parse_inject_template, Inject};

#[test]
fn parse_inject_template0() {
    let file = r##"
// some comment
//

//% IMPORTS

import a.a.a;

import a.a.b;

//% END

//% MAIN_ACTIVITY_BODY

public int a;

//% END

//% MAIN_ACTIVITY_ON_CREATE

test();

//% END

//% MAIN_ACTIVITY_ON_ACTIVITY_RESULT

if (requestCode == FILE_REQUEST_CODE) {}

//% END

"##;

    let injects = parse_inject_template(&file);
    assert_eq!(injects.imports, "import a.a.a;\nimport a.a.b;\n");
    assert_eq!(injects.main_activity.body, "public int a;\n");
    assert_eq!(injects.main_activity.on_create, "test();\n");
    assert_eq!(
        injects.main_activity.on_activity_result,
        "if (requestCode == FILE_REQUEST_CODE) {}\n"
    );
}

#[test]
fn parse_handles_crlf_and_every_section() {
    let file = "//% QUAD_SURFACE_ON_CREATE_INPUT_CONNECTION\r\nreturn null;\r\n//% END\r\n\
                //% MAIN_ACTIVITY_ON_RESUME\nresume();\n//% END\n\
                //% MAIN_ACTIVITY_ON_PAUSE\npause();\n//% END\n\
                outside();\n";
    let injects = parse_inject_template(file);
    assert_eq!(injects.quad_surface.on_create_input_connection, "return null;\n");
    assert_eq!(injects.main_activity.on_resume, "resume();\n");
    assert_eq!(injects.main_activity.on_pause, "pause();\n");
    assert_eq!(injects.imports, "");
    assert_eq!(injects.main_activity.body, "");
}

#[test]
fn parse_keeps_last_line_without_feed() {
    let injects = parse_inject_template("//% IMPORTS\nimport x;");
    assert_eq!(injects.imports, "import x;\n");
}

#[test]
fn comment_lines_inside_a_section_are_text() {
    let injects = parse_inject_template("//% IMPORTS\n// keep me\n//%\n//% END");
    assert_eq!(injects.imports, "// keep me\n//%\n");
}

#[test]
fn add_appends_section_by_section() {
    let mut all = Inject::new();
    all.add(parse_inject_template("//% IMPORTS\nimport a;\n//% END\n"));
    all.add(parse_inject_template(
        "//% IMPORTS\nimport b;\n//% END\n//% MAIN_ACTIVITY_BODY\nint x;\n//% END\n",
    ));
    assert_eq!(all.imports, "import a;\nimport b;\n");
    assert_eq!(all.main_activity.body, "int x;\n");
    assert_eq!(all.main_activity.on_create, "");
}

#[test]
fn well_formed_templates_are_recognised() {
    assert!(is_well_formed_template("//% IMPORTS\nimport a;\n//% END\n"));
    assert!(is_well_formed_template("no markers at all\n"));
    assert!(!is_well_formed_template("//% IMPORTS\n//% MAIN_ACTIVITY_BODY\n//% END\n"));
    assert!(!is_well_formed_template("text\n//% END\n"));
}
