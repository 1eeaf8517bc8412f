use mcpm::common::McpmDataError;
use mcpm::lockfile::{encode_instance, parse_instance};
use mcpm::minecraft::{InstalledMod, MinecraftInstance};

fn instance_with(mods: Vec<InstalledMod>) -> MinecraftInstance {
    MinecraftInstance {
        loader: String::from("fabric"),
        minecraft_version: String::from("1.20.1"),
        mods,
    }
}

fn assert_same(a: &MinecraftInstance, b: &MinecraftInstance) {
    assert_eq!(a.loader, b.loader);
    assert_eq!(a.minecraft_version, b.minecraft_version);
    assert_eq!(a.mods.len(), b.mods.len());
    for (x, y) in a.mods.iter().zip(b.mods.iter()) {
        assert_eq!(x.name, y.name);
        assert_eq!(x.slug, y.slug);
        assert_eq!(x.version, y.version);
    }
}

#[test]
fn encode_empty_manifest() {
    let inst = instance_with(Vec::new());
    let text = encode_instance(&inst);
    assert_eq!(
        text,
        "{\"loader\":\"fabric\",\"minecraft_version\":\"1.20.1\",\"mods\":[]}"
    );
}

#[test]
fn encode_one_mod() {
    let inst = instance_with(vec![InstalledMod {
        name: String::from("Sodium"),
        slug: String::from("sodium"),
        version: String::from("sodium-1.0.jar"),
    }]);
    let text = encode_instance(&inst);
    assert_eq!(
        text,
        "{\"loader\":\"fabric\",\"minecraft_version\":\"1.20.1\",\"mods\":[{\"name\":\"Sodium\",\"slug\":\"sodium\",\"version\":\"sodium-1.0.jar\"}]}"
    );
}

#[test]
fn round_trip_plain_manifest() {
    let inst = instance_with(vec![
        InstalledMod {
            name: String::from("Sodium"),
            slug: String::from("sodium"),
            version: String::from("sodium-1.0.jar"),
        },
        InstalledMod {
            name: String::from("Lithium"),
            slug: String::from("lithium"),
            version: String::from("lithium-2.3.jar"),
        },
    ]);
    let text = encode_instance(&inst);
    let back = parse_instance(&text).expect("canonical document must parse");
    assert_same(&inst, &back);
}

#[test]
fn round_trip_with_escapes() {
    let inst = instance_with(vec![InstalledMod {
        name: String::from("A \"quoted\" name\\with\nescapes\ttab\u{1}"),
        slug: String::from("weird-mod"),
        version: String::from("weird 1.0 (final).jar"),
    }]);
    let text = encode_instance(&inst);
    let back = parse_instance(&text).expect("escaped document must parse");
    assert_same(&inst, &back);
}

#[test]
fn round_trip_non_ascii() {
    let inst = MinecraftInstance {
        loader: String::from("quilt"),
        minecraft_version: String::from("1.19"),
        mods: vec![InstalledMod {
            name: String::from("Mödchen \u{1F600}"),
            slug: String::from("moedchen"),
            version: String::from("mödchen-1.jar"),
        }],
    };
    let text = encode_instance(&inst);
    let back = parse_instance(&text).expect("non-ascii document must parse");
    assert_same(&inst, &back);
}

#[test]
fn parse_accepts_short_escapes() {
    let text = "{\"loader\":\"fabric\",\"minecraft_version\":\"1.20.1\",\"mods\":[{\"name\":\"a\\/b\\n\",\"slug\":\"s\",\"version\":\"v\"}]}";
    let inst = parse_instance(text).expect("short escapes must parse");
    assert_eq!(inst.mods[0].name, "a/b\n");
}

#[test]
fn parse_rejects_garbage() {
    let err = parse_instance("not json").unwrap_err();
    assert!(matches!(err, McpmDataError::JsonError(_)));
}

#[test]
fn parse_rejects_missing_fields() {
    assert!(parse_instance("{}").is_err());
    assert!(parse_instance("{\"loader\":\"fabric\"}").is_err());
}

#[test]
fn parse_rejects_trailing_data() {
    let text = "{\"loader\":\"f\",\"minecraft_version\":\"1.20\",\"mods\":[]} ";
    assert!(parse_instance(text).is_err());
}

#[test]
fn parse_rejects_unterminated_string() {
    let text = "{\"loader\":\"f";
    assert!(parse_instance(text).is_err());
}

#[test]
fn parse_rejects_raw_control_character() {
    let text = "{\"loader\":\"f\u{1}\",\"minecraft_version\":\"1.20\",\"mods\":[]}";
    assert!(parse_instance(text).is_err());
}

#[test]
fn parse_rejects_unknown_escape() {
    let text = "{\"loader\":\"f\\q\",\"minecraft_version\":\"1.20\",\"mods\":[]}";
    assert!(parse_instance(text).is_err());
}

#[test]
fn error_carries_a_cause() {
    let err = parse_instance("[]").unwrap_err();
    assert!(!err.cause().is_empty());
}

#[test]
fn error_variants_keep_their_cause() {
    let fs = McpmDataError::FileSystemError(String::from("permission denied"));
    let net = McpmDataError::NetworkError(String::from("connection reset"));
    assert_eq!(fs.cause().as_str(), "permission denied");
    assert_eq!(net.cause().as_str(), "connection reset");
}

#[test]
fn unsynchronized_load_modify_save_loses_updates() {
    // Known hazard: the lockfile is not lock-protected across processes. Two
    // runs that load the same document, modify it independently, and save,
    // end with only the later save's changes.
    let text = encode_instance(&instance_with(Vec::new()));
    let mut first = parse_instance(&text).unwrap();
    let mut second = parse_instance(&text).unwrap();
    first.install_entry(InstalledMod {
        name: String::from("Sodium"),
        slug: String::from("sodium"),
        version: String::from("sodium-1.0.jar"),
    });
    second.install_entry(InstalledMod {
        name: String::from("Lithium"),
        slug: String::from("lithium"),
        version: String::from("lithium-1.0.jar"),
    });
    // Both would save; the later write overwrites the whole file.
    let surviving = parse_instance(&encode_instance(&second)).unwrap();
    assert!(surviving.installed(&String::from("lithium")));
    assert!(!surviving.installed(&String::from("sodium")));
}
