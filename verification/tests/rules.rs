use pkg_install_lint::rules::{check_bun, check_npm, check_pnpm, check_yarn};
use pkg_install_lint::scanner::is_comment_or_placeholder;

#[test]
fn test_npm_ci_allowed() {
    let violations = check_npm("npm ci", 1);
    assert_eq!(violations.len(), 0);
}

#[test]
fn test_npm_install_bare_violation() {
    let violations = check_npm("npm install", 1);
    assert_eq!(violations.len(), 1);
    assert!(violations[0].message.contains("npm ci"));
}

#[test]
fn test_npm_install_with_version_allowed() {
    let violations = check_npm("npm i eslint@8.50.0", 1);
    assert_eq!(violations.len(), 0);
}

#[test]
fn test_npm_install_without_version_violation() {
    let violations = check_npm("npm i eslint", 1);
    assert_eq!(violations.len(), 1);
    assert!(violations[0].message.contains("version pin"));
}

#[test]
fn test_pnpm_install_frozen_allowed() {
    let violations = check_pnpm("pnpm install --frozen-lockfile", 1);
    assert_eq!(violations.len(), 0);
}

#[test]
fn test_pnpm_install_violation() {
    let violations = check_pnpm("pnpm install", 1);
    assert_eq!(violations.len(), 1);
}

#[test]
fn test_yarn_frozen_allowed() {
    let violations = check_yarn("yarn install --frozen-lockfile", 1);
    assert_eq!(violations.len(), 0);
}

#[test]
fn test_bun_add_with_version_allowed() {
    let violations = check_bun("bun add react@18.2.0", 1);
    assert_eq!(violations.len(), 0);
}

#[test]
fn test_comment_skipped() {
    assert!(is_comment_or_placeholder("# npm install"));
    assert!(is_comment_or_placeholder("npm install <package>"));
}

#[test]
fn test_npm_scoped_package_without_version_violation() {
    let violations = check_npm("npm i @types/node", 1);
    assert_eq!(violations.len(), 1);
    assert!(violations[0].message.contains("version pin"));
}

#[test]
fn test_npm_scoped_package_with_version_allowed() {
    let violations = check_npm("npm i @types/node@18.0.0", 1);
    assert_eq!(violations.len(), 0);
}

#[test]
fn test_npm_scoped_org_package_without_version_violation() {
    let violations = check_npm("npm install @myorg/privatepackage", 1);
    assert_eq!(violations.len(), 1);
    assert!(violations[0].message.contains("version pin"));
}

#[test]
fn test_npm_scoped_org_package_with_version_allowed() {
    let violations = check_npm("npm install @myorg/privatepackage@1.5.0", 1);
    assert_eq!(violations.len(), 0);
}

#[test]
fn test_npm_full_semver_allowed() {
    let violations = check_npm("npm i eslint@8.50.0", 1);
    assert_eq!(violations.len(), 0);
}

#[test]
fn test_npm_short_semver_allowed() {
    let violations = check_npm("npm i package@1.2", 1);
    assert_eq!(violations.len(), 0);
}

#[test]
fn test_npm_ci_bare_allowed() {
    let violations = check_npm("npm ci", 1);
    assert_eq!(violations.len(), 0);
}

#[test]
fn test_npm_dev_flag_without_version_violation() {
    let violations = check_npm("npm i -D eslint", 1);
    assert_eq!(violations.len(), 1);
    assert!(violations[0].message.contains("version pin"));
}

#[test]
fn test_npm_dev_flag_with_version_allowed() {
    let violations = check_npm("npm i -D eslint@8.50.0", 1);
    assert_eq!(violations.len(), 0);
}

#[test]
fn test_npm_save_dev_flag_without_version_violation() {
    let violations = check_npm("npm install --save-dev typescript", 1);
    assert_eq!(violations.len(), 1);
    assert!(violations[0].message.contains("version pin"));
}

#[test]
fn test_npm_save_dev_flag_with_version_allowed() {
    let violations = check_npm("npm install --save-dev typescript@5.0.0", 1);
    assert_eq!(violations.len(), 0);
}

#[test]
fn test_pnpm_scoped_package_without_version_violation() {
    let violations = check_pnpm("pnpm add @types/react", 1);
    assert_eq!(violations.len(), 1);
    assert!(violations[0].message.contains("version pin"));
}

#[test]
fn test_pnpm_scoped_package_with_version_allowed() {
    let violations = check_pnpm("pnpm add @types/react@18.0.0", 1);
    assert_eq!(violations.len(), 0);
}

#[test]
fn test_pnpm_dev_flag_without_version_violation() {
    let violations = check_pnpm("pnpm add -D vitest", 1);
    assert_eq!(violations.len(), 1);
    assert!(violations[0].message.contains("version pin"));
}

#[test]
fn test_pnpm_dev_flag_with_version_allowed() {
    let violations = check_pnpm("pnpm add -D vitest@1.0.0", 1);
    assert_eq!(violations.len(), 0);
}

#[test]
fn test_yarn_scoped_package_without_version_violation() {
    let violations = check_yarn("yarn add @babel/core", 1);
    assert_eq!(violations.len(), 1);
    assert!(violations[0].message.contains("version pin"));
}

#[test]
fn test_yarn_scoped_package_with_version_allowed() {
    let violations = check_yarn("yarn add @babel/core@7.22.0", 1);
    assert_eq!(violations.len(), 0);
}

#[test]
fn test_yarn_dev_flag_without_version_violation() {
    let violations = check_yarn("yarn add -D jest", 1);
    assert_eq!(violations.len(), 1);
    assert!(violations[0].message.contains("version pin"));
}

#[test]
fn test_yarn_dev_flag_with_version_allowed() {
    let violations = check_yarn("yarn add -D jest@29.0.0", 1);
    assert_eq!(violations.len(), 0);
}

#[test]
fn test_bun_scoped_package_without_version_violation() {
    let violations = check_bun("bun add @hono/hono", 1);
    assert_eq!(violations.len(), 1);
    assert!(violations[0].message.contains("version pin"));
}

#[test]
fn test_bun_scoped_package_with_version_allowed() {
    let violations = check_bun("bun add @hono/hono@4.0.0", 1);
    assert_eq!(violations.len(), 0);
}

#[test]
fn test_bun_dev_flag_without_version_violation() {
    let violations = check_bun("bun add -D prettier", 1);
    assert_eq!(violations.len(), 1);
    assert!(violations[0].message.contains("version pin"));
}

#[test]
fn test_bun_dev_flag_with_version_allowed() {
    let violations = check_bun("bun add -D prettier@3.0.0", 1);
    assert_eq!(violations.len(), 0);
}
