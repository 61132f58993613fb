use carbide::measured_boot::{
    conversion_error, empty_message_error, wrap_conversion, DisplayName, Error, FromGrpc, FromGrpcOpt, FromPbVec,
};

struct Profile(u32);

impl DisplayName for Profile {
    fn display_name() -> &'static str {
        "Profile"
    }
}

impl FromGrpc<i64> for Profile {
    fn try_from_grpc(msg: i64) -> Result<Self, String> {
        u32::try_from(msg).map(Profile).map_err(|_| format!("{msg} is out of range"))
    }
}

impl FromGrpcOpt<i64> for Profile {}

impl FromPbVec<i64> for Profile {}

fn message(e: &Error) -> String {
    e.message()
}

#[test]
fn conversion_errors_name_the_record_type() {
    let e = conversion_error("Bundle", "missing id");
    assert!(matches!(e, Error::RpcConversion(_)));
    assert_eq!(message(&e), "bad message: Bundle: missing id");
    let empty = empty_message_error("Bundle");
    assert_eq!(message(&empty), "Bundle is unexpectedly empty");
    assert_eq!(Error::Parse("bad pcr".to_string()).message(), "bad pcr");
}

#[test]
fn wrap_conversion_passes_values_and_wraps_failures() {
    assert_eq!(wrap_conversion::<u8>("X", Ok(3)).ok(), Some(3));
    let err = wrap_conversion::<u8>("X", Err("why".to_string())).unwrap_err();
    assert_eq!(err.message(), "bad message: X: why");
}

#[test]
fn provided_conversions_use_the_record_name() {
    assert_eq!(Profile::from_grpc(7).ok().map(|p| p.0), Some(7));
    assert_eq!(
        Profile::from_grpc(-1).err().map(|e| e.message()),
        Some("bad message: Profile: -1 is out of range".to_string())
    );
    assert_eq!(
        Profile::from_grpc_opt(None).err().map(|e| e.message()),
        Some("Profile is unexpectedly empty".to_string())
    );
    assert_eq!(Profile::from_grpc_opt(Some(2)).ok().map(|p| p.0), Some(2));
    let all = Profile::from_pb_vec(&[1, 2, 3]).ok().unwrap();
    assert_eq!(all.iter().map(|p| p.0).collect::<Vec<_>>(), vec![1, 2, 3]);
    let first_bad = Profile::from_pb_vec(&[1, -5, -6]).err().unwrap();
    assert_eq!(first_bad.message(), "bad message: Profile: -5 is out of range");
}

#[test]
fn empty_lists_and_single_messages_convert_in_place() {
    let none: Vec<Profile> = Profile::from_pb_vec(&[]).ok().unwrap();
    assert!(none.is_empty());
    let one = Profile::from_pb_vec(&[9]).ok().unwrap();
    assert_eq!(one.iter().map(|p| p.0).collect::<Vec<_>>(), vec![9]);
    let bad_first = Profile::from_pb_vec(&[-1, 2]).err().unwrap();
    assert_eq!(bad_first.message(), "bad message: Profile: -1 is out of range");
    assert_eq!(
        Profile::from_grpc_opt(Some(-3)).err().map(|e| e.message()),
        Some("bad message: Profile: -3 is out of range".to_string())
    );
}
