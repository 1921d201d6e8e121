use oxc_formatter_json::attribution::{
    append_references_to_shared_doc, insert_references_in_inline_docs, rule_name_from_parts,
    rule_name_from_path, rule_names, rule_target, shared_group_plugins, updated_plugin_rule,
    updated_plugin_rule_for, updated_shared_rule, updated_shared_rule_for, Plugin, RuleNames,
    RuleTarget,
};

const INLINE_RULE: &str = "use crate::rule::Rule;

declare_oxc_lint!(
    /// ### What it does
    ///
    /// Disallows the use of `debugger`.
    NoDebugger,
    eslint,
    correctness,
);
";

const SHARED_DOC: &str = "pub const DOCUMENTATION: &str = r\"### What it does

Checks things.
\";
";

fn names(kebab: &str, camel: &str) -> Option<RuleNames> {
    Some(RuleNames { kebab: kebab.to_string(), camel: camel.to_string() })
}

#[test]
fn plugins_are_found_by_directory() {
    let dirs = [
        ("eslint", Plugin::ESLint),
        ("typescript", Plugin::Typescript),
        ("jest", Plugin::Jest),
        ("unicorn", Plugin::Unicorn),
        ("import", Plugin::Import),
        ("react", Plugin::React),
        ("react_perf", Plugin::ReactPerf),
        ("jsx_a11y", Plugin::JSXA11y),
        ("nextjs", Plugin::NextJS),
        ("jsdoc", Plugin::JSDoc),
        ("node", Plugin::Node),
        ("promise", Plugin::Promise),
        ("vitest", Plugin::Vitest),
        ("vue", Plugin::Vue),
    ];
    for (dir, plugin) in dirs {
        assert_eq!(Plugin::from_dir(dir), Some(plugin));
    }
    assert_eq!(Plugin::from_dir("oxc"), None);
    assert_eq!(Plugin::from_dir("shared"), None);
    assert_eq!(Plugin::from_dir("ESLint"), None);
    assert_eq!(Plugin::from_dir(""), None);
}

#[test]
fn docs_urls_follow_each_plugin() {
    assert_eq!(Plugin::ESLint.docs_url("no-debugger", "noDebugger"), "https://eslint.org/docs/latest/rules/no-debugger");
    assert_eq!(
        Plugin::Typescript.docs_url("no-explicit-any", "noExplicitAny"),
        "https://typescript-eslint.io/rules/no-explicit-any/"
    );
    assert_eq!(
        Plugin::Jest.docs_url("no-focused-tests", "noFocusedTests"),
        "https://github.com/jest-community/eslint-plugin-jest/blob/main/docs/rules/no-focused-tests.md"
    );
    assert_eq!(
        Plugin::JSDoc.docs_url("check-access", "checkAccess"),
        "https://github.com/gajus/eslint-plugin-jsdoc/blob/main/docs/rules/checkAccess.md"
    );
    assert_eq!(Plugin::NextJS.docs_url("no-img-element", "noImgElement"), "https://nextjs.org/docs/messages/no-img-element");
    assert_eq!(Plugin::Vue.docs_url("no-v-html", "noVHtml"), "https://eslint.vuejs.org/rules/no-v-html.html");
    assert_eq!(
        Plugin::ReactPerf.docs_url("jsx-no-new-object-as-prop", "jsxNoNewObjectAsProp"),
        "https://github.com/cvazac/eslint-plugin-react-perf/blob/master/docs/rules/jsx-no-new-object-as-prop.md"
    );
}

#[test]
fn shared_groups_list_their_plugins() {
    assert_eq!(shared_group_plugins("jest_vitest"), Some(&[Plugin::Jest, Plugin::Vitest][..]));
    assert_eq!(shared_group_plugins("eslint_unicorn"), Some(&[Plugin::ESLint, Plugin::Unicorn][..]));
    assert_eq!(shared_group_plugins("react_perf"), None);
}

#[test]
fn rule_names_come_from_the_file_or_its_directory() {
    assert_eq!(rule_name_from_path("crates/oxc_linter/src/rules/eslint/no_debugger.rs"), Some("no_debugger".to_string()));
    assert_eq!(rule_name_from_path("crates/oxc_linter/src/rules/jsx_a11y/alt_text/mod.rs"), Some("alt_text".to_string()));
    assert_eq!(rule_name_from_path("no_debugger.rs"), Some("no_debugger".to_string()));
    assert_eq!(rule_name_from_path("mod.rs"), None);
    assert_eq!(rule_name_from_path(""), None);
    assert_eq!(rule_name_from_parts(Some("mod".to_string()), Some("dir".to_string())), Some("dir".to_string()));
    assert_eq!(rule_name_from_parts(Some("rule".to_string()), Some("dir".to_string())), Some("rule".to_string()));
    assert_eq!(rule_name_from_parts(None, Some("dir".to_string())), None);
}

#[test]
fn rule_names_are_converted_to_both_cases() {
    let n = rule_names("crates/oxc_linter/src/rules/jest/no_focused_tests.rs").unwrap();
    assert_eq!(n.kebab, "no-focused-tests");
    assert_eq!(n.camel, "noFocusedTests");
    assert!(rule_names("").is_none());
}

#[test]
fn inline_references_go_after_the_last_doc_line() {
    let updated = insert_references_in_inline_docs(INLINE_RULE, "https://eslint.org/docs/latest/rules/no-debugger").unwrap();
    let expected = "use crate::rule::Rule;

declare_oxc_lint!(
    /// ### What it does
    ///
    /// Disallows the use of `debugger`.
    ///
    /// ### References
    ///
    /// - <https://eslint.org/docs/latest/rules/no-debugger>
    NoDebugger,
    eslint,
    correctness,
);
";
    assert_eq!(updated, expected);
}

#[test]
fn inline_insertion_is_idempotent() {
    let updated = insert_references_in_inline_docs(INLINE_RULE, "https://a").unwrap();
    assert_eq!(insert_references_in_inline_docs(&updated, "https://a"), None);
    assert_eq!(insert_references_in_inline_docs(&updated, "https://b"), None);
}

#[test]
fn inline_insertion_needs_a_doc_block() {
    assert_eq!(insert_references_in_inline_docs("fn main() {}", "u"), None);
    assert_eq!(insert_references_in_inline_docs("declare_oxc_lint!(\n    NoDebugger,\n);\n", "u"), None);
    assert_eq!(insert_references_in_inline_docs("declare_oxc_lint!(NoDebugger, docs = DOCUMENTATION);", "u"), None);
}

#[test]
fn inline_insertion_skips_blank_lines_and_tolerates_a_missing_final_newline() {
    let source = "declare_oxc_lint!(\n  /// Doc.\n\n\t/// More.";
    let updated = insert_references_in_inline_docs(source, "u").unwrap();
    assert_eq!(
        updated,
        "declare_oxc_lint!(\n  /// Doc.\n\n\t/// More.    ///\n    /// ### References\n    ///\n    /// - <u>\n"
    );
    assert_eq!(insert_references_in_inline_docs(&updated, "u"), None);
}

#[test]
fn existing_references_are_left_alone() {
    let source = "declare_oxc_lint!(\n    /// ### References\n    Rule,\n);\n";
    assert_eq!(insert_references_in_inline_docs(source, "u"), None);
}

#[test]
fn shared_references_are_appended_to_the_body() {
    let urls = vec!["https://a".to_string(), "https://b".to_string()];
    let updated = append_references_to_shared_doc(SHARED_DOC, &urls).unwrap();
    let expected = "pub const DOCUMENTATION: &str = r\"### What it does

Checks things.

### References

- <https://a>
- <https://b>
\";
";
    assert_eq!(updated, expected);
    assert_eq!(append_references_to_shared_doc(&updated, &urls), None);
    assert_eq!(append_references_to_shared_doc(&updated, &[]), None);
}

#[test]
fn shared_block_spacing_depends_on_the_body_end() {
    let no_newline = "pub const DOCUMENTATION: &str = r\"Text\";";
    assert_eq!(
        append_references_to_shared_doc(no_newline, &["u".to_string()]).unwrap(),
        "pub const DOCUMENTATION: &str = r\"Text\n\n### References\n\n- <u>\n\";"
    );
    let blank = "pub const DOCUMENTATION: &str = r\"Text\n\n\";";
    assert_eq!(
        append_references_to_shared_doc(blank, &["u".to_string()]).unwrap(),
        "pub const DOCUMENTATION: &str = r\"Text\n\n### References\n\n- <u>\n\";"
    );
    let empty = "pub const DOCUMENTATION: &str = r\"\";";
    assert_eq!(
        append_references_to_shared_doc(empty, &["u".to_string()]).unwrap(),
        "pub const DOCUMENTATION: &str = r\"\n### References\n\n- <u>\n\";"
    );
}

#[test]
fn shared_append_needs_the_constant() {
    assert_eq!(append_references_to_shared_doc("const X: &str = \"a\";", &["u".to_string()]), None);
    assert_eq!(append_references_to_shared_doc("pub const DOCUMENTATION: &str = r\"unterminated", &["u".to_string()]), None);
}

#[test]
fn plugin_rules_using_shared_docs_are_skipped() {
    let source = "declare_oxc_lint!(NoFocusedTests, jest, style, docs = DOCUMENTATION);";
    assert_eq!(updated_plugin_rule_for(source, names("no-focused-tests", "noFocusedTests"), Plugin::Jest), None);
    assert_eq!(updated_plugin_rule_for(INLINE_RULE, None, Plugin::ESLint), None);
}

#[test]
fn plugin_rule_update_links_the_plugin_docs() {
    let updated = updated_plugin_rule("crates/oxc_linter/src/rules/eslint/no_debugger.rs", INLINE_RULE, Plugin::ESLint).unwrap();
    assert!(updated.contains("/// - <https://eslint.org/docs/latest/rules/no-debugger>\n    NoDebugger,"));
    assert_eq!(updated_plugin_rule("crates/oxc_linter/src/rules/eslint/no_debugger.rs", &updated, Plugin::ESLint), None);
    let jsdoc = updated_plugin_rule("rules/jsdoc/check_access.rs", INLINE_RULE, Plugin::JSDoc).unwrap();
    assert!(jsdoc.contains("docs/rules/checkAccess.md>"));
}

#[test]
fn shared_rule_update_lists_every_sharing_plugin() {
    let plugins = [Plugin::Jest, Plugin::Vitest];
    let updated = updated_shared_rule("rules/shared/jest_vitest/no_focused_tests.rs", SHARED_DOC, &plugins).unwrap();
    assert!(updated.contains(
        "- <https://github.com/jest-community/eslint-plugin-jest/blob/main/docs/rules/no-focused-tests.md>\n\
         - <https://github.com/vitest-dev/eslint-plugin-vitest/blob/main/docs/rules/no-focused-tests.md>\n\";"
    ));
    assert_eq!(updated_shared_rule("rules/shared/jest_vitest/no_focused_tests.rs", &updated, &plugins), None);
    assert_eq!(updated_shared_rule_for(SHARED_DOC, None, &plugins), None);
}

#[test]
fn rule_targets_follow_the_directory_layout() {
    assert!(matches!(rule_target("eslint", Some("no_debugger.rs"), Some("no_debugger.rs")), Some(RuleTarget::Plugin(Plugin::ESLint))));
    match rule_target("shared", Some("jest_vitest"), Some("no_focused_tests.rs")) {
        Some(RuleTarget::Shared(plugins)) => assert_eq!(plugins, &[Plugin::Jest, Plugin::Vitest][..]),
        _ => panic!("expected a shared target"),
    }
    assert!(rule_target("shared", Some("jest_vitest"), Some("mod.rs")).is_none());
    assert!(rule_target("shared", Some("unknown"), Some("x.rs")).is_none());
    assert!(rule_target("shared", None, None).is_none());
    assert!(rule_target("oxc", Some("x.rs"), Some("x.rs")).is_none());
}
