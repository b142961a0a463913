use pj_rs::filters::{get_default_config, get_template};

fn strs(v: &[&str]) -> Vec<String> {
    v.iter().map(|s| s.to_string()).collect()
}

#[test]
fn cs_template_contents() {
    let rs = get_template("cs").expect("cs is a known template");
    assert_eq!(
        rs.allowed_extensions,
        Some(strs(&[".cs", ".xaml", ".csproj", ".props", ".targets"]))
    );
    assert_eq!(rs.forbidden_dirs, strs(&["bin", "obj", "packages", ".vs"]));
    assert_eq!(
        rs.exclude_patterns,
        strs(&[
            "*.user",
            "*.suo",
            "AssemblyInfo.cs",
            "*.g.cs",
            "*.i.cs",
            "TemporaryGeneratedFile_*.cs",
        ])
    );
}

#[test]
fn wpf_template_contents() {
    let rs = get_template("wpf").expect("wpf is a known template");
    assert_eq!(
        rs.allowed_extensions,
        Some(strs(&[".cs", ".xaml", ".csproj", ".props", ".targets", ".config"]))
    );
    assert_eq!(rs.forbidden_dirs, strs(&["bin", "obj", ".vs"]));
    assert_eq!(rs.exclude_patterns, strs(&["*.user", "*.suo"]));
}

#[test]
fn rb_template_contents() {
    let rs = get_template("rb").expect("rb is a known template");
    assert_eq!(
        rs.allowed_extensions,
        Some(strs(&[".rb", ".gemfile", "Gemfile", "Rakefile", ".rake"]))
    );
    assert_eq!(rs.forbidden_dirs, strs(&[".bundle", "tmp", "log"]));
    assert_eq!(rs.exclude_patterns, strs(&["*.gem"]));
}

#[test]
fn rails_template_contents() {
    let rs = get_template("rails").expect("rails is a known template");
    assert_eq!(
        rs.allowed_extensions,
        Some(strs(&[
            ".rb", ".rake", ".erb", ".haml", ".slim", ".yml", ".yaml", ".js", ".ts", ".css",
            ".scss", ".json",
        ]))
    );
    assert_eq!(rs.forbidden_dirs, strs(&["tmp", "log", "public/assets", ".bundle"]));
    assert_eq!(rs.exclude_patterns, strs(&["*.sqlite3", "*.log"]));
}

#[test]
fn unknown_template_is_refused() {
    assert!(get_template("go").is_none());
    assert!(get_template("").is_none());
    assert!(get_template("CS").is_none());
}

#[test]
fn default_config_contents() {
    let rs = get_default_config();
    assert_eq!(rs.allowed_extensions, None);
    assert_eq!(
        rs.forbidden_dirs,
        strs(&[
            "bin",
            "obj",
            ".git",
            ".vs",
            ".idea",
            "node_modules",
            "tmp",
            "log",
            "packages",
            ".bundle",
        ])
    );
    assert_eq!(
        rs.exclude_patterns,
        strs(&[
            "*.tmp", "*.cache", "*.suo", "*.user", "*.xlsx", "*.xls", "*.pdf", "*.jpg", "*.jpeg",
            "*.png", "*.gif", "*.ico", "*.dll", "*.exe", "*.so", "*.dylib", "*.bin", ".DS_Store",
            "*.gem", "*.log",
        ])
    );
}

#[test]
fn extra_excludes_are_appended_not_substituted() {
    let mut rs = get_template("cs").expect("cs is a known template");
    pj_rs::filters::add_exclude_patterns(&mut rs, strs(&["*.generated.*", "*.bak"]));
    assert_eq!(
        rs.exclude_patterns,
        strs(&[
            "*.user",
            "*.suo",
            "AssemblyInfo.cs",
            "*.g.cs",
            "*.i.cs",
            "TemporaryGeneratedFile_*.cs",
            "*.generated.*",
            "*.bak",
        ])
    );
    assert_eq!(rs.forbidden_dirs, strs(&["bin", "obj", "packages", ".vs"]));
}
