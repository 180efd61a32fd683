//! Tests of the whole-document parse and the extraction pass.

use phylum::api;
use phylum::error::ParseError;
use phylum::package::{PackageDescriptor, PackageType};
use phylum::yarn::parse;

fn ok(input: &str) -> Vec<PackageDescriptor> {
    match parse(input) {
        Ok(v) => v,
        Err(e) => panic!("expected success, got: {}", e.message()),
    }
}

fn err(input: &str) -> ParseError {
    match parse(input) {
        Ok(v) => panic!("expected an error, got {:?}", v),
        Err(e) => e,
    }
}

#[test]
fn parse_lockfile() {
    let input = "react@^16.0.0:\n  version \"16.14.0\"\n\n\"@scope/pkg@1.2.3\":\n  version \"1.2.3\"\n";
    let ds = ok(input);
    assert_eq!(ds.len(), 2);
    assert_eq!(ds[0].name, "react");
    assert_eq!(ds[0].version, "16.14.0");
    assert_eq!(ds[0].package_type, PackageType::Npm);
    assert_eq!(ds[1].name, "@scope/pkg");
    assert_eq!(ds[1].version, "1.2.3");
}

#[test]
fn parse_realistic_lockfile() {
    let input = "# THIS IS AN AUTOGENERATED FILE. DO NOT EDIT THIS FILE DIRECTLY.\n# yarn lockfile v1\n\n\n\"@babel/code-frame@^7.0.0\", \"@babel/code-frame@^7.16.7\":\n  version \"7.16.7\"\n  resolved \"https://registry.yarnpkg.com/@babel/code-frame/-/code-frame-7.16.7.tgz\"\n  integrity sha512-iAXqUn8IIeBTNd72xsFlg==\n  dependencies:\n    \"@babel/highlight\" \"^7.16.7\"\n\nansi-styles@^3.2.1:\n  version \"3.2.1\"\n  dependencies:\n    color-convert \"^1.9.0\"\n";
    let ds = ok(input);
    assert_eq!(ds.len(), 2);
    assert_eq!(ds[0].name, "@babel/code-frame");
    assert_eq!(ds[0].version, "7.16.7");
    assert_eq!(ds[1].name, "ansi-styles");
    assert_eq!(ds[1].version, "3.2.1");
}

#[test]
fn indentation_pops_back_to_parent() {
    // A shallower line ends the nested block and continues the parent map.
    let input = "a@1:\n  version \"1\"\nb@2:\n  version \"2\"\n";
    let ds = ok(input);
    assert_eq!(ds.len(), 2);
    assert_eq!(ds[0].name, "a");
    assert_eq!(ds[1].name, "b");
}

#[test]
fn leading_indent_rejected() {
    // A root entry may not be indented.
    let e = err("  a \"b\"\n");
    assert!(matches!(e, ParseError::TrailingInput { .. }));
}

#[test]
fn parse_deterministic() {
    let input = "a@1:\n  version \"1.0\"\nb@2:\n  version \"2.0\"\n";
    let first = ok(input);
    let second = ok(input);
    assert_eq!(first, second);
    let names: Vec<&str> = first.iter().map(|d| d.name.as_str()).collect();
    assert_eq!(names, vec!["a", "b"]);
}

#[test]
fn duplicate_descriptors_dropped() {
    // The same resolved package under two requirement ranges appears once.
    let input = "a@^1:\n  version \"1.5\"\na@~1.5:\n  version \"1.5\"\nb@1:\n  version \"1.5\"\n";
    let ds = ok(input);
    assert_eq!(ds.len(), 2);
    assert_eq!(ds[0].name, "a");
    assert_eq!(ds[0].version, "1.5");
    assert_eq!(ds[1].name, "b");
    // No two descriptors share both name and version.
    for i in 0..ds.len() {
        for j in 0..ds.len() {
            if i != j {
                assert!(!(ds[i].name == ds[j].name && ds[i].version == ds[j].version));
            }
        }
    }
}

#[test]
fn multi_key_entries() {
    let input = "a@1, b@1:\n  version \"9.9\"\n";
    let ds = ok(input);
    assert_eq!(ds.len(), 2);
    assert_eq!(ds[0].name, "a");
    assert_eq!(ds[0].version, "9.9");
    assert_eq!(ds[1].name, "b");
    assert_eq!(ds[1].version, "9.9");
}

#[test]
fn empty_input() {
    assert_eq!(ok(""), Vec::new());
    assert_eq!(ok("\n # only a comment\n\n"), Vec::new());
}

#[test]
fn missing_version_diagnostic() {
    let e = err("react@^16:\n  resolved \"somewhere\"\n");
    match &e {
        ParseError::MissingVersion { specifier, line, column } => {
            assert_eq!(specifier, "react@^16");
            assert_eq!((*line, *column), (1, 1));
        }
        other => panic!("unexpected error {:?}", other),
    }
    assert_eq!(
        e.message(),
        "Package \"react@^16\" at line 1 column 1 has no version"
    );
}

#[test]
fn unexpected_string_diagnostic() {
    let e = err("foo@1 \"bar\"\n");
    match &e {
        ParseError::UnexpectedString { literal, line, column } => {
            assert_eq!(literal, "bar");
            assert_eq!((*line, *column), (1, 7));
        }
        other => panic!("unexpected error {:?}", other),
    }
    assert_eq!(
        e.message(),
        "Unexpected string at line 1 column 7: \"bar\""
    );
}

#[test]
fn unexpected_map_diagnostic() {
    let e = err("a@1:\n  version:\n    x \"y\"\n");
    match &e {
        ParseError::UnexpectedMap { line, column } => {
            assert_eq!((*line, *column), (2, 3));
        }
        other => panic!("unexpected error {:?}", other),
    }
    assert_eq!(
        e.message(),
        "Unexpected map for property \"version\" at line 2 column 3"
    );
}

#[test]
fn invalid_specifier_diagnostic() {
    let e = err("\"@@\" \"x\"\n");
    match &e {
        ParseError::InvalidSpecifier { specifier } => {
            assert_eq!(specifier, "@@");
        }
        other => panic!("unexpected error {:?}", other),
    }
    assert_eq!(
        e.message(),
        "Unable to parse package specifier \"@@\": expected a name and version requirement"
    );
}

#[test]
fn specifier_without_version_range() {
    // A key with no `@` introducing a version requirement is malformed.
    let e = err("react:\n  version \"16.0.0\"\n");
    match &e {
        ParseError::InvalidSpecifier { specifier } => {
            assert_eq!(specifier, "react");
        }
        other => panic!("unexpected error {:?}", other),
    }
    assert_eq!(
        e.message(),
        "Unable to parse package specifier \"react\": expected a name and version requirement"
    );

    // The same for a scoped name without a version requirement.
    let e = err("\"@scope/pkg\":\n  version \"1.0\"\n");
    assert!(matches!(e, ParseError::InvalidSpecifier { .. }));
}

#[test]
fn unterminated_quote_diagnostic() {
    let e = err("\"a");
    match &e {
        ParseError::Syntax { line, column, .. } => {
            assert_eq!((*line, *column), (1, 3));
        }
        other => panic!("unexpected error {:?}", other),
    }
    assert_eq!(
        e.message(),
        "Syntax error at line 1 column 3: expected closing quote"
    );
}

#[test]
fn inline_colon_value_diagnostic() {
    // A colon commits to a nested block; inline text after it is a hard
    // failure, not a fallback to another grammar branch.
    let e = err("a: b\n");
    assert_eq!(
        e.message(),
        "Syntax error at line 1 column 4: expected end of line"
    );
}

#[test]
fn trailing_input_diagnostic() {
    let e = err("0");
    match &e {
        ParseError::TrailingInput { line, column } => {
            assert_eq!((*line, *column), (1, 1));
        }
        other => panic!("unexpected error {:?}", other),
    }
    assert_eq!(e.message(), "Trailing characters at line 1 column 1");
}

#[test]
fn version_overwritten_by_later_key() {
    // A repeated `version` key at one level: the last value wins.
    let input = "a@1:\n  version \"1\"\n  version \"2\"\n";
    let ds = ok(input);
    assert_eq!(ds.len(), 1);
    assert_eq!(ds[0].version, "2");
}

#[test]
fn quoted_version_decodes_escapes() {
    let input = "a@1:\n  version \"1.0\\u0041\"\n";
    let ds = ok(input);
    assert_eq!(ds.len(), 1);
    assert_eq!(ds[0].version, "1.0A");
}

#[test]
fn carriage_return_line_breaks() {
    let ds = ok("a@1:\r\n  version \"1.0\"\r\n");
    assert_eq!(ds.len(), 1);
    assert_eq!(ds[0].name, "a");
    assert_eq!(ds[0].version, "1.0");
}

#[test]
fn invalid_escape_is_soft() {
    // A quoted token with an invalid JSON escape is no literal; the
    // entry mismatches softly and the document stops before it.
    let e = err("\"a\\q\" \"x\"\n");
    assert!(matches!(e, ParseError::TrailingInput { line: 1, column: 1 }));
}

#[test]
fn empty_key_specifier() {
    let e = err("\"\" \"x\"\n");
    assert_eq!(
        e.message(),
        "Unable to parse package specifier \"\": expected a name and version requirement"
    );
}

#[test]
fn render_descriptor() {
    let d = PackageDescriptor {
        name: "react".to_string(),
        version: "16.14.0".to_string(),
        package_type: PackageType::Npm,
    };
    let line = d.render();
    assert_eq!(line.len(), 68);
    assert_eq!(&line[0..5], "react");
    assert_eq!(&line[48..55], "16.14.0");
    assert!(line[5..48].chars().all(|c| c == ' '));
    assert!(line[55..].chars().all(|c| c == ' '));
}

#[test]
fn group_routes() {
    assert_eq!(api::list("https://api.example.com"), "https://api.example.com/api/v0/groups");
    assert_eq!(api::create("https://api.example.com"), "https://api.example.com/api/v0/groups");
}

#[test]
fn plugin_projects() {
    struct Host;
    impl phylum::plugin::Phylum for Host {
        fn projects(&mut self) -> Vec<phylum::plugin::Project> {
            vec![phylum::plugin::Project { name: "demo".to_string(), id: "1".to_string() }]
        }
    }
    let mut host = Host;
    let projects = phylum::plugin::Phylum::projects(&mut host);
    assert_eq!(projects[0].name, "demo");
    assert_eq!(projects[0].id, "1");
    assert_eq!(phylum::extension::simple(), 90);
}
