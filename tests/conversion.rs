use nightfall::value::{
    convert, AttachmentId, ChannelId, DataOption, FromOption, MentionableId, Number,
    OptionType, OptionValue, RoleId, UserId,
};
use nightfall::services::{AddTwilightServices, Service, ServiceLifetime, ServicePlan};

#[test]
fn convert_matches_tag_exactly() {
    let v = OptionValue::Integer(5);
    assert!(matches!(convert(&v, OptionType::Integer), Some(OptionValue::Integer(5))));
    assert!(convert(&v, OptionType::Number).is_none());
    let n = OptionValue::Number(2.5f64.to_bits());
    assert!(convert(&n, OptionType::Integer).is_none());
    assert!(matches!(convert(&n, OptionType::Number), Some(OptionValue::Number(b)) if f64::from_bits(*b) == 2.5));
    let s = OptionValue::String("x".to_string());
    assert!(convert(&s, OptionType::Boolean).is_none());
    assert_eq!(s.kind(), OptionType::String);
    assert_eq!(OptionValue::Mentionable(1).kind(), OptionType::Mentionable);
}

#[test]
fn from_option_each_kind() {
    assert_eq!(bool::from_option(OptionValue::Boolean(true)), Some(true));
    assert_eq!(bool::from_option(OptionValue::Integer(1)), None);
    assert_eq!(i64::from_option(OptionValue::Integer(-7)), Some(-7));
    assert_eq!(i64::from_option(OptionValue::Number(0)), None);
    assert_eq!(Number::from_option(OptionValue::Number(1.5f64.to_bits())), Some(Number { bits: 1.5f64.to_bits() }));
    assert_eq!(Number::from_option(OptionValue::Integer(1)), None);
    assert_eq!(String::from_option(OptionValue::String("s".to_string())), Some("s".to_string()));
    assert_eq!(String::from_option(OptionValue::User(1)), None);
    assert_eq!(AttachmentId::from_option(OptionValue::Attachment(3)), Some(AttachmentId(3)));
    assert_eq!(ChannelId::from_option(OptionValue::Channel(4)), Some(ChannelId(4)));
    assert_eq!(RoleId::from_option(OptionValue::Role(5)), Some(RoleId(5)));
    assert_eq!(UserId::from_option(OptionValue::User(6)), Some(UserId(6)));
    assert_eq!(UserId::from_option(OptionValue::Role(6)), None);
    assert_eq!(MentionableId::from_option(OptionValue::Mentionable(7)), Some(MentionableId(7)));
    let group = Vec::<DataOption>::from_option(OptionValue::SubCommandGroup(vec![DataOption {
        name: "n".to_string(),
        value: OptionValue::Boolean(false),
    }]))
    .unwrap();
    assert_eq!(group.len(), 1);
    assert_eq!(group[0].name, "n");
    assert!(Vec::<DataOption>::from_option(OptionValue::String("n".to_string())).is_none());
}

#[test]
fn service_plan_in_order() {
    let plan = ServicePlan::new().add_http_client("SECRET-REDACTED".to_string()).add_in_memory_cache();
    let r = plan.registrations();
    assert_eq!(r.len(), 2);
    assert!(matches!(&r[0].service, Service::HttpClient { token } if token == "SECRET-REDACTED"));
    assert_eq!(r[0].lifetime, ServiceLifetime::Singleton);
    assert!(matches!(r[1].service, Service::InMemoryCache));
    assert_eq!(r[1].lifetime, ServiceLifetime::Singleton);
}
