use lazy::config::{parse_key_val, ConfigFile, LazyConfig};

fn kv(line: &str) -> Option<(String, String)> {
    parse_key_val(line)
}

fn pair(k: &str, v: &str) -> Option<(String, String)> {
    Some((k.to_string(), v.to_string()))
}

fn sample() -> &'static str {
    "# the container\nNAME=web\nIMAGE_NAME=\"alpine\"\nIMAGE_TAG = 3.19\n\nDOCKERFILE=docker/Dockerfile\n"
}

#[test]
fn key_val_plain() {
    assert_eq!(kv("NAME=web"), pair("NAME", "web"));
}

#[test]
fn key_val_trims_key_and_value() {
    assert_eq!(kv("  NAME  =  web  "), pair("NAME", "web"));
    assert_eq!(kv("\tNAME\t=\tweb\r"), pair("NAME", "web"));
    assert_eq!(kv("\u{00A0}K\u{3000}=\u{2003}v\u{0085}"), pair("K", "v"));
}

#[test]
fn key_val_strips_one_pair_of_quotes() {
    assert_eq!(kv("NAME=\"web\""), pair("NAME", "web"));
    assert_eq!(kv("NAME = \"web app\" "), pair("NAME", "web app"));
    assert_eq!(kv("NAME=\" web \""), pair("NAME", " web "));
    assert_eq!(kv("NAME=\"\"web\"\""), pair("NAME", "\"web\""));
    assert_eq!(kv("NAME=\"\""), pair("NAME", ""));
}

#[test]
fn key_val_keeps_unmatched_quotes() {
    assert_eq!(kv("NAME=\"web"), pair("NAME", "\"web"));
    assert_eq!(kv("NAME=web\""), pair("NAME", "web\""));
    assert_eq!(kv("NAME=\""), pair("NAME", "\""));
    assert_eq!(kv("NAME='web'"), pair("NAME", "'web'"));
}

#[test]
fn key_val_splits_on_the_first_equals_sign_only() {
    assert_eq!(kv("A=b=c"), pair("A", "b=c"));
    assert_eq!(kv("A=="), pair("A", "="));
    assert_eq!(kv("=x"), pair("", "x"));
    assert_eq!(kv("="), pair("", ""));
    assert_eq!(kv("K="), pair("K", ""));
}

#[test]
fn key_val_skips_blank_lines_and_comments() {
    assert_eq!(kv(""), None);
    assert_eq!(kv("   "), None);
    assert_eq!(kv("\t\r"), None);
    assert_eq!(kv("# NAME=web"), None);
    assert_eq!(kv("   #NAME=web"), None);
    assert_eq!(kv("#"), None);
}

#[test]
fn key_val_wants_an_equals_sign() {
    assert_eq!(kv("NAME"), None);
    assert_eq!(kv("NAME web"), None);
}

#[test]
fn key_val_comment_sign_inside_is_text() {
    assert_eq!(kv("K = v # not a comment"), pair("K", "v # not a comment"));
    assert_eq!(kv("K#=v"), pair("K#", "v"));
}

#[test]
fn parse_reads_the_four_keys() {
    let c = LazyConfig::parse(sample());
    assert_eq!(c.name, "web");
    assert_eq!(c.image_name, "alpine");
    assert_eq!(c.image_tag, "3.19");
    assert_eq!(c.image, "alpine:3.19");
    assert_eq!(c.dockerfile, "docker/Dockerfile");
    assert_eq!(c.env, "");
}

#[test]
fn parse_of_nothing_gives_the_defaults() {
    let c = LazyConfig::parse("");
    assert_eq!(c.name, "");
    assert_eq!(c.image_name, "");
    assert_eq!(c.image_tag, "");
    assert_eq!(c.image, ":");
    assert_eq!(c.dockerfile, "");
    assert_eq!(c.env, "");
    assert_eq!(c, LazyConfig::default());
}

#[test]
fn image_is_name_colon_tag_also_when_a_half_is_empty() {
    assert_eq!(LazyConfig::parse("IMAGE_NAME=alpine").image, "alpine:");
    assert_eq!(LazyConfig::parse("IMAGE_TAG=latest").image, ":latest");
    assert_eq!(LazyConfig::parse("NAME=x").image, ":");
    assert_eq!(LazyConfig::parse("IMAGE_NAME=a\nIMAGE_TAG=b").image, "a:b");
    assert_eq!(LazyConfig::default().image, ":");
}

#[test]
fn parse_last_assignment_wins() {
    let c = LazyConfig::parse("NAME=one\nNAME=two\nIMAGE_TAG=1\nNAME=three\nIMAGE_TAG=\n");
    assert_eq!(c.name, "three");
    assert_eq!(c.image_tag, "");
    assert_eq!(c.image, ":");
}

#[test]
fn parse_ignores_unknown_keys_blank_lines_and_comments() {
    let plain = LazyConfig::parse("NAME=web\nIMAGE_NAME=alpine\n");
    let noisy = LazyConfig::parse(
        "\n# NAME=other\nNAME=web\n\n  \nENV=.env\nname=lower\nIMAGE=wrong:tag\nIMAGE_NAME=alpine\njunk\n#\n",
    );
    assert_eq!(plain, noisy);
    assert_eq!(noisy.env, "");
    assert_eq!(noisy.image, "alpine:");
}

#[test]
fn parse_keys_are_case_sensitive_and_exact() {
    let c = LazyConfig::parse("Name=a\nNAME2=b\nIMAGE_NAME_=c\n NAME =d\n");
    assert_eq!(c.name, "d");
    assert_eq!(c.image_name, "");
}

#[test]
fn parse_accepts_crlf_and_no_final_newline() {
    let c = LazyConfig::parse("NAME=web\r\nIMAGE_NAME=\"alpine\"\r\nIMAGE_TAG=3");
    assert_eq!(c.name, "web");
    assert_eq!(c.image_name, "alpine");
    assert_eq!(c.image_tag, "3");
    assert_eq!(c.image, "alpine:3");
}

#[test]
fn quoted_and_unquoted_values_are_stored_alike() {
    for (k, v) in [("NAME", "web"), ("IMAGE_TAG", "3.19"), ("DOCKERFILE", "a b/c"), ("X", ""), ("", "v")] {
        let bare = format!("{}={}", k, v);
        let quoted = format!("{}=\"{}\"", k, v);
        assert_eq!(kv(&bare), kv(&quoted));
        assert_eq!(kv(&bare), pair(k, v));
    }
    assert_eq!(LazyConfig::parse("NAME=web\n"), LazyConfig::parse("NAME=\"web\"\n"));
}

#[test]
fn serialize_writes_four_quoted_lines() {
    let c = LazyConfig::parse(sample());
    assert_eq!(
        c.serialize(),
        "NAME=\"web\"\nIMAGE_NAME=\"alpine\"\nIMAGE_TAG=\"3.19\"\nDOCKERFILE=\"docker/Dockerfile\"\n"
    );
    assert_eq!(
        LazyConfig::default().serialize(),
        "NAME=\"\"\nIMAGE_NAME=\"\"\nIMAGE_TAG=\"\"\nDOCKERFILE=\"\"\n"
    );
}

#[test]
fn parsing_the_serialized_config_gives_it_back() {
    for text in [
        "",
        sample(),
        "NAME=\" spaced \"\nIMAGE_NAME=\"\"quoted\"\"\nIMAGE_TAG=\"\nDOCKERFILE=#x\n",
        "NAME=a\rb\r\nIMAGE_NAME=x=y\nDOCKERFILE=\" \r\"\n",
    ] {
        let first = LazyConfig::parse(text);
        let again = LazyConfig::parse(&first.serialize());
        assert_eq!(first, again, "{:?}", text);
    }
}

#[test]
fn resolve_prefers_the_local_file() {
    let local = ConfigFile::Read("NAME=local\n".to_string());
    let global = ConfigFile::Read("NAME=global\n".to_string());
    assert_eq!(LazyConfig::resolve(&local, &global).name, "local");
    assert_eq!(LazyConfig::resolve(&local, &ConfigFile::Missing).name, "local");
    assert_eq!(LazyConfig::resolve(&local, &ConfigFile::Unreadable).name, "local");
}

#[test]
fn resolve_falls_back_to_the_global_file() {
    let global = ConfigFile::Read("NAME=global\nIMAGE_NAME=arch\n".to_string());
    let c = LazyConfig::resolve(&ConfigFile::Missing, &global);
    assert_eq!(c.name, "global");
    assert_eq!(c.image, "arch:");
}

#[test]
fn resolve_gives_defaults_without_a_readable_file() {
    let global = ConfigFile::Read("NAME=global\n".to_string());
    assert_eq!(LazyConfig::resolve(&ConfigFile::Missing, &ConfigFile::Missing), LazyConfig::default());
    assert_eq!(LazyConfig::resolve(&ConfigFile::Missing, &ConfigFile::Unreadable), LazyConfig::default());
    assert_eq!(LazyConfig::resolve(&ConfigFile::Unreadable, &global), LazyConfig::default());
    assert_eq!(LazyConfig::resolve(&ConfigFile::Unreadable, &ConfigFile::Missing), LazyConfig::default());
}

#[test]
fn global_path_lies_below_the_home_directory() {
    assert_eq!(LazyConfig::global_path_under("/home/alice"), "/home/alice/.config/.lazy");
    assert_eq!(LazyConfig::global_path_under("/home/alice/"), "/home/alice/.config/.lazy");
    assert_eq!(LazyConfig::global_path_under("/"), "/.config/.lazy");
    assert_eq!(LazyConfig::global_path_under(""), ".config/.lazy");
}

#[test]
fn global_path_agrees_with_path_join() {
    for home in ["/home/alice", "/home/alice/", "/", "", "relative/dir", "/a b/ü"] {
        let joined = std::path::Path::new(home).join(".config/.lazy");
        assert_eq!(LazyConfig::global_path_under(home), joined.to_str().unwrap(), "{:?}", home);
    }
}

#[test]
fn global_config_path_follows_the_home_directory() {
    let expected = dirs::home_dir()
        .and_then(|h| h.to_str().map(|s| s.to_string()))
        .map(|h| LazyConfig::global_path_under(&h));
    assert_eq!(LazyConfig::global_config_path(), expected);
    if let Some(path) = LazyConfig::global_config_path() {
        assert!(path.ends_with(".config/.lazy"));
    }
}

#[test]
fn global_path_for_a_found_or_missing_home() {
    assert_eq!(LazyConfig::global_path_for(None), None);
    assert_eq!(
        LazyConfig::global_path_for(Some("/home/bob".to_string())),
        Some("/home/bob/.config/.lazy".to_string())
    );
    assert_eq!(
        LazyConfig::global_path_for(Some("/".to_string())),
        Some("/.config/.lazy".to_string())
    );
}
