use pkg_install_lint::files::{is_excluded, should_check_file};
use pkg_install_lint::rules::{check_bun, check_npm, check_pnpm, check_yarn};
use pkg_install_lint::scanner::check_file;

#[test]
fn npm_ci_with_chain_allowed() {
    let violations = check_npm("npm ci && npm test", 1);
    assert_eq!(violations.len(), 0);
}

#[test]
fn npm_ci_trimmed_allowed() {
    let violations = check_npm("   npm ci  ", 1);
    assert_eq!(violations.len(), 0);
}

#[test]
fn npm_install_bare_with_chain_violation() {
    let violations = check_npm("npm install && npm test", 3);
    assert_eq!(violations.len(), 1);
    assert_eq!(violations[0].line_num, 3);
    assert!(violations[0].message.contains("npm ci"));
    assert_eq!(violations[0].line_content, "npm install && npm test");
}

#[test]
fn npm_single_version_component_still_flagged() {
    let violations = check_npm("npm i lodash@4", 1);
    assert_eq!(violations.len(), 1);
    assert!(violations[0].message.contains("version pin"));
}

#[test]
fn npm_rule_skips_line_with_pnpm_token() {
    let violations = check_npm("pnpm install", 1);
    assert_eq!(violations.len(), 0);
}

#[test]
fn npm_rule_skips_line_with_yarn_token() {
    let violations = check_npm("yarn add react", 1);
    assert_eq!(violations.len(), 0);
}

#[test]
fn pnpm_add_with_version_allowed() {
    let violations = check_pnpm("pnpm add foo@1.0.0", 1);
    assert_eq!(violations.len(), 0);
}

#[test]
fn pnpm_add_without_version_violation() {
    let violations = check_pnpm("pnpm add foo", 1);
    assert_eq!(violations.len(), 1);
    assert!(violations[0].message.contains("version pin"));
}

#[test]
fn yarn_bare_violation() {
    let violations = check_yarn("yarn", 1);
    assert_eq!(violations.len(), 1);
    assert!(violations[0].message.contains("--frozen-lockfile"));
}

#[test]
fn yarn_install_violation() {
    let violations = check_yarn("yarn install", 1);
    assert_eq!(violations.len(), 1);
}

#[test]
fn yarn_immutable_allowed() {
    let violations = check_yarn("yarn install --immutable", 1);
    assert_eq!(violations.len(), 0);
}

#[test]
fn yarn_bare_frozen_allowed() {
    let violations = check_yarn("yarn --frozen-lockfile", 1);
    assert_eq!(violations.len(), 0);
}

#[test]
fn yarn_global_add_without_version_violation() {
    let violations = check_yarn("yarn global add typescript", 1);
    assert_eq!(violations.len(), 1);
    assert!(violations[0].message.contains("version pin"));
}

#[test]
fn yarn_add_with_version_allowed() {
    let violations = check_yarn("yarn add bar@2.0.0", 1);
    assert_eq!(violations.len(), 0);
}

#[test]
fn yarn_run_command_allowed() {
    let violations = check_yarn("yarn run build", 1);
    assert_eq!(violations.len(), 0);
}

#[test]
fn bun_install_violation() {
    let violations = check_bun("bun install", 1);
    assert_eq!(violations.len(), 1);
    assert!(violations[0].message.contains("--frozen-lockfile"));
}

#[test]
fn bun_install_frozen_allowed() {
    let violations = check_bun("bun install --frozen-lockfile", 1);
    assert_eq!(violations.len(), 0);
}

#[test]
fn bun_add_without_version_violation() {
    let violations = check_bun("bun add baz", 1);
    assert_eq!(violations.len(), 1);
    assert!(violations[0].message.contains("version pin"));
}

#[test]
fn scan_reports_line_numbers_in_order() {
    let content = "npm install\nsafe line\npnpm install\n";
    let violations = check_file(content);
    assert_eq!(violations.len(), 2);
    assert_eq!(violations[0].line_num, 1);
    assert!(violations[0].message.contains("npm ci"));
    assert_eq!(violations[1].line_num, 3);
    assert!(violations[1].message.contains("--frozen-lockfile"));
}

#[test]
fn scan_one_line_two_managers_fixed_order() {
    let violations = check_file("pnpm install && bun install\n");
    assert_eq!(violations.len(), 2);
    assert!(violations[0].message.contains("pnpm install --frozen-lockfile"));
    assert!(violations[1].message.contains("bun install --frozen-lockfile"));
}

#[test]
fn scan_twice_yields_identical_sequences() {
    let content = "npm install\n```\nyarn\n```\nbun add x\n";
    let first = check_file(content);
    let second = check_file(content);
    assert_eq!(first.len(), second.len());
    for (a, b) in first.iter().zip(second.iter()) {
        assert_eq!(a.line_num, b.line_num);
        assert_eq!(a.message, b.message);
        assert_eq!(a.line_content, b.line_content);
    }
}

#[test]
fn scan_skips_fenced_region() {
    let content = "```\nnpm install\nyarn\nbun install\n```\n";
    let violations = check_file(content);
    assert_eq!(violations.len(), 0);
}

#[test]
fn scan_fence_marker_line_itself_never_flagged() {
    let content = "``` npm install\n```\n";
    let violations = check_file(content);
    assert_eq!(violations.len(), 0);
}

#[test]
fn scan_resumes_after_fence() {
    let content = "```\nnpm install\n```\nnpm install\n";
    let violations = check_file(content);
    assert_eq!(violations.len(), 1);
    assert_eq!(violations[0].line_num, 4);
}

#[test]
fn scan_exempt_lines_never_flagged() {
    let content = "# npm install\n> npm install\n- npm install\n`npm install`\nnpm install <package>\nnpm i foo@<version>\n";
    let violations = check_file(content);
    assert_eq!(violations.len(), 0);
}

#[test]
fn scan_empty_content() {
    let violations = check_file("");
    assert_eq!(violations.len(), 0);
}

#[test]
fn scan_strips_carriage_return_and_trims_content() {
    let violations = check_file("  npm install\r\n");
    assert_eq!(violations.len(), 1);
    assert_eq!(violations[0].line_content, "npm install");
}

#[test]
fn scan_no_trailing_newline() {
    let violations = check_file("bun install");
    assert_eq!(violations.len(), 1);
    assert_eq!(violations[0].line_num, 1);
}

#[test]
fn excluded_paths() {
    assert!(is_excluded("./node_modules/pkg/README.md"));
    assert!(is_excluded("./.git/hooks/pre-commit.sh"));
    assert!(is_excluded("./scripts/lint-package-install.sh"));
    assert!(!is_excluded("./docs/guide.md"));
}

#[test]
fn checkable_paths() {
    assert!(should_check_file("./Dockerfile"));
    assert!(should_check_file("./Dockerfile.prod"));
    assert!(should_check_file("./build/app.dockerfile"));
    assert!(should_check_file("./README.md"));
    assert!(should_check_file("./README.MD"));
    assert!(should_check_file("./scripts/setup.sh"));
    assert!(should_check_file("./.github/workflows/ci.yml"));
    assert!(should_check_file("./.github/workflows/release.yaml"));
    assert!(!should_check_file("./config/ci.yml"));
    assert!(!should_check_file("./src/main.rs"));
    assert!(!should_check_file("./md"));
    assert!(!should_check_file("./.md"));
}
