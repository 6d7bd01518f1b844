use std::fmt;

use serde::de::{self, Deserialize, Deserializer, IgnoredAny, MapAccess, Visitor};
use serde::ser::{Serialize, SerializeStruct, Serializer};
use windows_sandbox::policy::{
    wrap_invocation, HelperPath, SandboxPermissions, SandboxPolicy, WrapError, SANDBOX_HELPER_FLAG,
};
use windows_sandbox::policy_file::{read_policy, FieldValue, PolicyBuilder, PolicyError, PolicyField};

struct PolicyFile(SandboxPolicy);

impl Serialize for PolicyFile {
    fn serialize<S: Serializer>(&self, serializer: S) -> Result<S::Ok, S::Error> {
        let mut object = serializer.serialize_struct("SandboxPolicy", 5)?;
        for value in self.0.fields() {
            match value {
                FieldValue::Program(v) => object.serialize_field(PolicyField::Program.name(), &v)?,
                FieldValue::Args(v) => object.serialize_field(PolicyField::Args.name(), &v)?,
                FieldValue::WritableDirectories(v) => {
                    object.serialize_field(PolicyField::WritableDirectories.name(), &v)?
                }
                FieldValue::AllowFsWrite(v) => object.serialize_field(PolicyField::AllowFsWrite.name(), &v)?,
                FieldValue::AllowNetwork(v) => object.serialize_field(PolicyField::AllowNetwork.name(), &v)?,
            }
        }
        object.end()
    }
}

struct PolicyVisitor;

impl<'de> Visitor<'de> for PolicyVisitor {
    type Value = PolicyFile;

    fn expecting(&self, formatter: &mut fmt::Formatter<'_>) -> fmt::Result {
        formatter.write_str("struct SandboxPolicy")
    }

    fn visit_map<A: MapAccess<'de>>(self, mut map: A) -> Result<PolicyFile, A::Error> {
        let mut builder = PolicyBuilder::new();
        while let Some(key) = map.next_key::<String>()? {
            let field = match PolicyField::named(&key) {
                Some(field) => field,
                None => {
                    map.next_value::<IgnoredAny>()?;
                    continue;
                }
            };
            builder.expect(field).map_err(told)?;
            let value = match field {
                PolicyField::Program => FieldValue::Program(map.next_value()?),
                PolicyField::Args => FieldValue::Args(map.next_value()?),
                PolicyField::WritableDirectories => FieldValue::WritableDirectories(map.next_value()?),
                PolicyField::AllowFsWrite => FieldValue::AllowFsWrite(map.next_value()?),
                PolicyField::AllowNetwork => FieldValue::AllowNetwork(map.next_value()?),
            };
            builder.put(value).map_err(told)?;
        }
        builder.finish().map(PolicyFile).map_err(told)
    }
}

fn told<E: de::Error>(error: PolicyError) -> E {
    match error {
        PolicyError::DuplicateField(field) => E::duplicate_field(field.name()),
        PolicyError::MissingField(field) => E::missing_field(field.name()),
    }
}

impl<'de> Deserialize<'de> for PolicyFile {
    fn deserialize<D: Deserializer<'de>>(deserializer: D) -> Result<PolicyFile, D::Error> {
        deserializer.deserialize_map(PolicyVisitor)
    }
}

fn sample() -> SandboxPolicy {
    SandboxPolicy {
        program: "cmd.exe".to_string(),
        args: vec!["/c".to_string(), "echo hi".to_string()],
        writable_directories: vec![
            r"C:\Users\dev\project".to_string(),
            r"C:\Users\dev\AppData\Local\Temp\zed-abc".to_string(),
        ],
        allow_fs_write: false,
        allow_network: false,
    }
}

fn failure(json: &str) -> String {
    match serde_json::from_str::<PolicyFile>(json) {
        Ok(_) => panic!("{json} was read"),
        Err(error) => error.to_string(),
    }
}

#[test]
fn sandbox_policy_round_trips_through_json() {
    let policy = sample();
    let json = serde_json::to_string(&PolicyFile(policy.clone())).unwrap();
    let parsed = serde_json::from_str::<PolicyFile>(&json).unwrap().0;
    assert_eq!(parsed.program, policy.program);
    assert_eq!(parsed.args, policy.args);
    assert_eq!(parsed.writable_directories, policy.writable_directories);
    assert_eq!(parsed.allow_fs_write, policy.allow_fs_write);
    assert_eq!(parsed.allow_network, policy.allow_network);
}

#[test]
fn file_holds_the_fields_in_their_order() {
    let json = serde_json::to_string(&PolicyFile(sample())).unwrap();
    assert_eq!(
        json,
        r#"{"program":"cmd.exe","args":["/c","echo hi"],"writable_directories":["C:\\Users\\dev\\project","C:\\Users\\dev\\AppData\\Local\\Temp\\zed-abc"],"allow_fs_write":false,"allow_network":false}"#
    );
}

#[test]
fn fields_are_read_in_any_order_and_unknown_ones_left_out() {
    let json = r#"{"extra":[1,{"x":2}],"allow_network":true,"args":[],"allow_fs_write":true,
        "writable_directories":["d"],"program":"p"}"#;
    let policy = serde_json::from_str::<PolicyFile>(json).unwrap().0;
    assert_eq!(policy.program, "p");
    assert!(policy.args.is_empty());
    assert_eq!(policy.writable_directories, vec!["d".to_string()]);
    assert!(policy.allow_fs_write && policy.allow_network);
}

#[test]
fn missing_and_duplicate_fields_are_refused() {
    assert!(failure("{}").starts_with("missing field `program`"));
    assert!(failure(r#"{"program":"p"}"#).starts_with("missing field `args`"));
    assert!(failure(r#"{"program":"p","program":"q"}"#).starts_with("duplicate field `program`"));
    assert!(failure(r#"{"args":[],"program":"p","args":3}"#).starts_with("duplicate field `args`"));
}

#[test]
fn entries_are_read_back() {
    let policy = sample();
    let parsed = read_policy(policy.fields()).unwrap();
    assert_eq!(format!("{parsed:?}"), format!("{policy:?}"));
}

#[test]
fn each_field_is_needed_once() {
    let order = [
        PolicyField::Program,
        PolicyField::Args,
        PolicyField::WritableDirectories,
        PolicyField::AllowFsWrite,
        PolicyField::AllowNetwork,
    ];
    for (i, field) in order.into_iter().enumerate() {
        let mut without = sample().fields();
        without.remove(i);
        assert_eq!(read_policy(without).unwrap_err(), PolicyError::MissingField(field));
        let mut twice = sample().fields();
        let mut again = sample().fields();
        twice.insert(0, again.remove(i));
        assert_eq!(read_policy(twice).unwrap_err(), PolicyError::DuplicateField(field));
        assert_eq!(PolicyField::named(field.name()), Some(field));
    }
    assert_eq!(PolicyField::named("Program"), None);
    assert_eq!(PolicyField::named(""), None);
}

#[test]
fn permissions_are_all_false_by_default() {
    let permissions = SandboxPermissions::default();
    assert_eq!(permissions, SandboxPermissions { allow_network: false, allow_fs_write: false });
}

#[test]
fn policy_is_made_of_the_invocation() {
    let args = vec!["-c".to_string(), "ls".to_string()];
    let directories = vec![Some("C:\\a".to_string()), Some("C:\\b".to_string())];
    let permissions = SandboxPermissions { allow_network: true, allow_fs_write: false };
    let policy = SandboxPolicy::new("sh", &args, &directories, permissions).unwrap();
    assert_eq!(policy.program, "sh");
    assert_eq!(policy.args, args);
    assert_eq!(policy.writable_directories, vec!["C:\\a".to_string(), "C:\\b".to_string()]);
    assert!(!policy.allow_fs_write);
    assert!(policy.allow_network);
    assert_eq!(policy.argv(), vec!["sh".to_string(), "-c".to_string(), "ls".to_string()]);
}

#[test]
fn directory_without_unicode_form_is_refused() {
    let directories = vec![Some("C:\\a".to_string()), None];
    let policy = SandboxPolicy::new("sh", &Vec::new(), &directories, SandboxPermissions::default());
    assert_eq!(policy.unwrap_err(), WrapError::Serialize);
}

#[test]
fn invocation_runs_the_helper_on_the_policy_file() {
    let (program, args) =
        wrap_invocation(Some("C:\\tmp\\p".to_string()), HelperPath::At("C:\\zed.exe".to_string())).unwrap();
    assert_eq!(program, "C:\\zed.exe");
    assert_eq!(args, vec!["--zed-sandbox-helper".to_string(), "C:\\tmp\\p".to_string()]);
    assert_eq!(SANDBOX_HELPER_FLAG, "--zed-sandbox-helper");
}

#[test]
fn invocation_needs_both_paths() {
    let path = || Some("p".to_string());
    assert_eq!(wrap_invocation(None, HelperPath::Unknown).unwrap_err(), WrapError::PolicyPath);
    assert_eq!(wrap_invocation(None, HelperPath::At("z".to_string())).unwrap_err(), WrapError::PolicyPath);
    assert_eq!(wrap_invocation(path(), HelperPath::Unknown).unwrap_err(), WrapError::CurrentExecutable);
    assert_eq!(wrap_invocation(path(), HelperPath::NotUnicode).unwrap_err(), WrapError::HelperPath);
}
