use msvc2008_parser::sln_raw::{
    charsep, parse_parentheses, parse_string, parse_uuid, sln_version, sp, tag, vs_version, Global,
    Project, SlnError, SlnErrorKind, Sln,
};
use uuid::Uuid;

fn uuid_of(s: &str) -> u128 {
    Uuid::parse_str(s).unwrap().as_u128()
}

#[test]
fn parses_sln_version() {
    let input = "Microsoft Visual Studio Solution File, Format Version 12.13";
    assert_eq!(sln_version(input).unwrap().1, (12, 13));
}

#[test]
fn parses_escaped_str() {
    let input = "\"hello\"";
    assert_eq!(parse_string(input).unwrap().1, "hello");
}

#[test]
fn parses_empty_project() {
    let input = r#"
Project("{2150E333-8FDC-42A3-9474-1A3956D46DE8}") = "survarium", "survarium", "{4E2399DA-D511-4F61-ACCB-894F87214FC5}"
EndProject
"#
    .trim();

    let project = Project::parse(input).unwrap().1;
    assert_eq!(project.name, "survarium");
    assert_eq!(project.path, "survarium");
    assert_eq!(
        project.up_uuid,
        Uuid::parse_str("{2150E333-8FDC-42A3-9474-1A3956D46DE8}").unwrap().as_u128()
    );
    assert_eq!(
        project.uuid,
        Uuid::parse_str("{4E2399DA-D511-4F61-ACCB-894F87214FC5}").unwrap().as_u128()
    );
}

fn paren_then_hello(i: &str) -> Result<(&str, String), SlnError> {
    let (i, _) = charsep('(', i)?;
    tag("hello", i)
}

#[test]
fn hello() {
    assert_eq!(paren_then_hello("   (    hello").unwrap().1, "hello");
    assert_eq!(paren_then_hello("(hello").unwrap().1, "hello");
    assert_eq!(paren_then_hello("\n\n(         \r\thello").unwrap().1, "hello");
}

#[test]
fn sp_splits_off_leading_white_space() {
    let (rest, spaces) = sp(" \t\r\nabc def").unwrap();
    assert_eq!(spaces, " \t\r\n");
    assert_eq!(rest, "abc def");
    let (rest2, spaces2) = sp(rest).unwrap();
    assert_eq!(spaces2, "");
    assert_eq!(rest2, "abc def");
    let (rest3, spaces3) = sp("").unwrap();
    assert_eq!((rest3, spaces3.as_str()), ("", ""));
}

#[test]
fn tag_reads_itself_and_reports_mismatch() {
    let (rest, t) = tag("EndProject", "EndProject\nGlobal").unwrap();
    assert_eq!(t, "EndProject");
    assert_eq!(rest, "\nGlobal");
    let e = tag("EndProject", "EndProj").unwrap_err();
    assert_eq!(e.kind, SlnErrorKind::Tag);
    assert_eq!(e.input, "EndProj");
}

#[test]
fn charsep_leaves_text_after_white_space() {
    let (rest, c) = charsep(',', "  ,\t \"next\"").unwrap();
    assert_eq!(c, ',');
    assert_eq!(rest, "\"next\"");
    let e = charsep('=', "  , x").unwrap_err();
    assert_eq!(e.kind, SlnErrorKind::Char);
    assert_eq!(e.input, ", x");
}

#[test]
fn delimited_texts() {
    let (rest, body) = parse_parentheses("(a \"b\" c) tail").unwrap();
    assert_eq!(body, "a \"b\" c");
    assert_eq!(rest, " tail");
    let e = parse_parentheses("x(a)").unwrap_err();
    assert_eq!(e.kind, SlnErrorKind::Char);
    assert_eq!(e.input, "x(a)");
    let e = parse_string("\"unterminated").unwrap_err();
    assert_eq!(e.kind, SlnErrorKind::TakeUntil);
    assert_eq!(e.input, "unterminated");
    let (rest, body) = parse_string("\"\" after").unwrap();
    assert_eq!(body, "");
    assert_eq!(rest, " after");
}

#[test]
fn uuids_in_quotes() {
    let (rest, u) = parse_uuid("\"{4E2399DA-D511-4F61-ACCB-894F87214FC5}\", x").unwrap();
    assert_eq!(u, uuid_of("{4E2399DA-D511-4F61-ACCB-894F87214FC5}"));
    assert_ne!(u, 0);
    assert_eq!(rest, ", x");
    let (_, plain) = parse_uuid("\"4e2399da-d511-4f61-accb-894f87214fc5\"").unwrap();
    assert_eq!(plain, u);
    let e = parse_uuid("\"not a uuid\" rest").unwrap_err();
    assert_eq!(e.kind, SlnErrorKind::Fail);
    assert_eq!(e.input, " rest");
}

#[test]
fn version_lines() {
    assert_eq!(vs_version("# Visual Studio 2008\r\n").unwrap(), ("\r\n", 2008));
    let e = vs_version("# Visual Studio 70000").unwrap_err();
    assert_eq!(e.kind, SlnErrorKind::MapRes);
    assert_eq!(e.input, "70000");
    let e = vs_version("# Visual Studio x").unwrap_err();
    assert_eq!(e.kind, SlnErrorKind::Digit);
    assert_eq!(e.input, "x");
    let e = sln_version("Microsoft Visual Studio Solution File, Format Version 10-00").unwrap_err();
    assert_eq!(e.kind, SlnErrorKind::Tag);
    assert_eq!(e.input, "-00");
    let e = sln_version("Microsoft Visual Studio Solution File, Format Version 256.0").unwrap_err();
    assert_eq!(e.kind, SlnErrorKind::MapRes);
    assert_eq!(e.input, "256.0");
    assert_eq!(
        sln_version("Microsoft Visual Studio Solution File, Format Version 10.00 x").unwrap(),
        (" x", (10, 0))
    );
}

const TWO_PROJECTS: &str = "\u{FEFF}
Microsoft Visual Studio Solution File, Format Version 10.00
# Visual Studio 2008
Project(\"{8BC9CEB8-8B4A-11D0-8D11-00A0C91BC942}\") = \"core\", \"core\\core.vcproj\", \"{11111111-2222-3333-4444-555555555555}\"
EndProject
Project(\"{8BC9CEB8-8B4A-11D0-8D11-00A0C91BC942}\") = \"game\", \"game\\game.vcproj\", \"{AAAAAAAA-BBBB-CCCC-DDDD-EEEEEEEEEEEE}\"
EndProject
Global
EndGlobal
";

#[test]
fn solution_reads_entries_only_while_they_follow_each_other() {
    // An entry starts right at `Project`: the line break after the first
    // `EndProject` ends the list of entries.
    let sln = Sln::parse(TWO_PROJECTS).unwrap();
    assert_eq!(sln.projects.len(), 1);
    assert_eq!(sln.projects[0].name, "core");
    assert_eq!(sln.projects[0].path, "core\\core.vcproj");
    assert_eq!(sln.projects[0].uuid, uuid_of("{11111111-2222-3333-4444-555555555555}"));
    assert_eq!(sln.projects[0].up_uuid, uuid_of("{8BC9CEB8-8B4A-11D0-8D11-00A0C91BC942}"));
    assert!(sln.projects[0].section_dependencies.is_none());
    assert!(sln.global.pre_sln_platforms.is_none());
    assert!(sln.global.post_proj_platforms.is_none());
    assert!(sln.global.pre_props.is_none());
}

#[test]
fn solution_with_adjacent_entries() {
    let text = "Microsoft Visual Studio Solution File, Format Version 10.00\n# Visual Studio 2008\n\
Project(\"{8BC9CEB8-8B4A-11D0-8D11-00A0C91BC942}\") = \"core\", \"core.vcproj\", \"{11111111-2222-3333-4444-555555555555}\" EndProject\
Project(\"{8BC9CEB8-8B4A-11D0-8D11-00A0C91BC942}\") = \"game\", \"game.vcproj\", \"{AAAAAAAA-BBBB-CCCC-DDDD-EEEEEEEEEEEE}\" EndProject\nGlobal";
    let sln = Sln::parse(text).unwrap();
    assert_eq!(sln.projects.len(), 2);
    assert_eq!(sln.projects[0].name, "core");
    assert_eq!(sln.projects[1].name, "game");
    assert_eq!(sln.projects[1].path, "game.vcproj");
    assert_eq!(sln.projects[1].uuid, uuid_of("{AAAAAAAA-BBBB-CCCC-DDDD-EEEEEEEEEEEE}"));
}

#[test]
fn solution_without_projects() {
    let text = "Microsoft Visual Studio Solution File, Format Version 10.00\n# Visual Studio 2008\nGlobal\n";
    let sln = Sln::parse(text).unwrap();
    assert!(sln.projects.is_empty());
}

#[test]
fn solution_header_errors() {
    let e = Sln::parse("Microsoft Visual Studio Solution File, Format Version\n").unwrap_err();
    assert_eq!(e.kind, SlnErrorKind::Tag);
    let e = Sln::parse("Microsoft Visual Studio Solution File, Format Version 10.00\n# Visual C++ 2008")
        .unwrap_err();
    assert_eq!(e.kind, SlnErrorKind::Tag);
    assert_eq!(e.input, "# Visual C++ 2008");
}

#[test]
fn solution_of_another_version_stops() {
    let newer = "Microsoft Visual Studio Solution File, Format Version 11.01\n# Visual Studio 2010\n";
    assert!(Sln::parse_checked(newer).is_none());
    let other_year = "Microsoft Visual Studio Solution File, Format Version 10.00\n# Visual Studio 2010\n";
    assert!(Sln::parse_checked(other_year).is_none());
    let minor_zero = "Microsoft Visual Studio Solution File, Format Version 9.00\n# Visual Studio 2008\n";
    assert!(matches!(Sln::parse_checked(minor_zero), Some(Ok(_))));
    assert!(matches!(Sln::parse_checked(TWO_PROJECTS), Some(Ok(ref s)) if s.projects.len() == 1));
}

#[test]
fn project_entry_errors() {
    let e = Project::parse("Projekt(\"{8BC9CEB8-8B4A-11D0-8D11-00A0C91BC942}\")").unwrap_err();
    assert_eq!(e.kind, SlnErrorKind::Tag);
    let no_end = "Project(\"{8BC9CEB8-8B4A-11D0-8D11-00A0C91BC942}\") = \"a\", \"b\", \"{11111111-2222-3333-4444-555555555555}\"\nGlobal";
    let e = Project::parse(no_end).unwrap_err();
    assert_eq!(e.kind, SlnErrorKind::Tag);
    assert_eq!(e.input, "Global");
    let bad_uuid = "Project(\"{8BC9CEB8-8B4A-11D0-8D11-00A0C91BC942}\") = \"a\", \"b\", \"nope\"\nEndProject";
    let e = Project::parse(bad_uuid).unwrap_err();
    assert_eq!(e.kind, SlnErrorKind::Fail);
    assert_eq!(e.input, "\nEndProject");
}

#[test]
fn project_type_with_trailing_text_stops() {
    let text = "Project(\"{8BC9CEB8-8B4A-11D0-8D11-00A0C91BC942}\" x) = \"a\", \"b\", \"{11111111-2222-3333-4444-555555555555}\"\nEndProject";
    assert!(Project::parse_checked(text).is_none());
}

#[test]
fn project_entry_reads_back_with_rest() {
    let text = "Project(\"{8BC9CEB8-8B4A-11D0-8D11-00A0C91BC942}\") = \"my lib\", \"libs\\my lib.vcproj\", \"{11111111-2222-3333-4444-555555555555}\"\r\nEndProject\r\nProject";
    let (rest, p) = Project::parse(text).unwrap();
    assert_eq!(rest, "\r\nProject");
    assert_eq!(p.name, "my lib");
    assert_eq!(p.path, "libs\\my lib.vcproj");
    let (rest, p2) = Project::parse_checked(text).unwrap().unwrap();
    assert_eq!(rest, "\r\nProject");
    assert_eq!(p2.uuid, p.uuid);
}

#[test]
fn global_reads_nothing() {
    let (rest, g) = Global::parse("Global\nEndGlobal").unwrap();
    assert_eq!(rest, "Global\nEndGlobal");
    assert!(g.pre_sln_platforms.is_none() && g.post_proj_platforms.is_none() && g.pre_props.is_none());
}

#[test]
fn finds_a_project_by_name() {
    let text = "Microsoft Visual Studio Solution File, Format Version 10.00\n# Visual Studio 2008\n\
Project(\"{8BC9CEB8-8B4A-11D0-8D11-00A0C91BC942}\") = \"core\", \"core.vcproj\", \"{11111111-2222-3333-4444-555555555555}\" EndProject\
Project(\"{8BC9CEB8-8B4A-11D0-8D11-00A0C91BC942}\") = \"game\", \"game.vcproj\", \"{AAAAAAAA-BBBB-CCCC-DDDD-EEEEEEEEEEEE}\" EndProject";
    let sln = Sln::parse(text).unwrap();
    assert_eq!(sln.find_project("game"), Some(1));
    assert_eq!(sln.find_project("core"), Some(0));
    assert_eq!(sln.find_project("Game"), None);
}

#[test]
fn written_solution_reads_back() {
    let entries = [
        ("{8BC9CEB8-8B4A-11D0-8D11-00A0C91BC942}", "core", "core\\core.vcproj", "{11111111-2222-3333-4444-555555555555}"),
        ("{2150E333-8FDC-42A3-9474-1A3956D46DE8}", "my game", "game/game.vcproj", "{AAAAAAAA-BBBB-CCCC-DDDD-EEEEEEEEEEEE}"),
    ];
    let mut text = String::from("Microsoft Visual Studio Solution File, Format Version 10.00\r\n# Visual Studio 2008\r\n");
    for (up, name, path, uuid) in entries {
        text.push_str(&format!("Project(\"{up}\") = \"{name}\", \"{path}\", \"{uuid}\"\r\nEndProject"));
    }
    text.push_str("\r\n\tGlobal\r\nEndGlobal\r\n");
    let sln = Sln::parse(&text).unwrap();
    assert_eq!(sln.projects.len(), 2);
    for (p, (up, name, path, uuid)) in sln.projects.iter().zip(entries) {
        assert_eq!(p.up_uuid, uuid_of(up));
        assert_eq!(p.name, name);
        assert_eq!(p.path, path);
        assert_eq!(p.uuid, uuid_of(uuid));
    }
}

#[test]
fn solution_error_messages() {
    let e = tag("EndProject", "EndProj").unwrap_err();
    assert_eq!(e.message(), "Parsing Error: Error { input: \"EndProj\", code: Tag }");
    let e = parse_string("\"a\nb").unwrap_err();
    assert_eq!(e.message(), "Parsing Error: Error { input: \"a\\nb\", code: TakeUntil }");
    let e = vs_version("# Visual Studio 70000").unwrap_err();
    assert_eq!(e.message(), "Parsing Error: Error { input: \"70000\", code: MapRes }");
    let e = SlnError { input: "say \"hi\"".to_string(), kind: SlnErrorKind::Many0 };
    assert_eq!(e.message(), "Parsing Error: Error { input: \"say \\\"hi\\\"\", code: Many0 }");
}

#[test]
fn checked_reading_leaves_dependencies_empty() {
    let text = "Project(\"{8BC9CEB8-8B4A-11D0-8D11-00A0C91BC942}\") = \"a\", \"b\", \"{11111111-2222-3333-4444-555555555555}\" EndProject";
    let (_, p) = Project::parse_checked(text).unwrap().unwrap();
    assert!(p.section_dependencies.is_none());
    let sln = Sln::parse_checked(TWO_PROJECTS).unwrap().unwrap();
    assert!(sln.projects.iter().all(|p| p.section_dependencies.is_none()));
}
