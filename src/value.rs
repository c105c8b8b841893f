use vstd::prelude::*;

verus! {

/// The closed set of option kinds that a command option can carry.
#[derive(Clone, Copy, Debug, PartialEq, Eq, Structural)]
pub enum OptionType {
    Boolean,
    Integer,
    Number,
    String,
    Attachment,
    Channel,
    Role,
    User,
    Mentionable,
    SubCommandGroup,
}

/// A raw option value as it arrives in an invocation, tagged with its kind.
///
/// A `Number` is carried as the IEEE-754 bit pattern of a 64-bit float; the
/// library never computes with it. Identifiers are carried as their integer
/// value. A `SubCommandGroup` carries the nested options of a subcommand.
#[derive(Debug)]
pub enum OptionValue {
    Boolean(bool),
    Integer(i64),
    Number(u64),
    String(String),
    Attachment(u64),
    Channel(u64),
    Role(u64),
    User(u64),
    Mentionable(u64),
    SubCommandGroup(Vec<DataOption>),
}

/// One named option of an invocation.
#[derive(Debug)]
pub struct DataOption {
    pub name: String,
    pub value: OptionValue,
}

impl OptionValue {
    /// The kind that this value is tagged with.
    pub open spec fn kind_of(self) -> OptionType {
        match self {
            OptionValue::Boolean(_) => OptionType::Boolean,
            OptionValue::Integer(_) => OptionType::Integer,
            OptionValue::Number(_) => OptionType::Number,
            OptionValue::String(_) => OptionType::String,
            OptionValue::Attachment(_) => OptionType::Attachment,
            OptionValue::Channel(_) => OptionType::Channel,
            OptionValue::Role(_) => OptionType::Role,
            OptionValue::User(_) => OptionType::User,
            OptionValue::Mentionable(_) => OptionType::Mentionable,
            OptionValue::SubCommandGroup(_) => OptionType::SubCommandGroup,
        }
    }

    /// Returns the kind that this value is tagged with.
    pub fn kind(&self) -> (r: OptionType)
        ensures
            r == self.kind_of(),
    {
        match self {
            OptionValue::Boolean(_) => OptionType::Boolean,
            OptionValue::Integer(_) => OptionType::Integer,
            OptionValue::Number(_) => OptionType::Number,
            OptionValue::String(_) => OptionType::String,
            OptionValue::Attachment(_) => OptionType::Attachment,
            OptionValue::Channel(_) => OptionType::Channel,
            OptionValue::Role(_) => OptionType::Role,
            OptionValue::User(_) => OptionType::User,
            OptionValue::Mentionable(_) => OptionType::Mentionable,
            OptionValue::SubCommandGroup(_) => OptionType::SubCommandGroup,
        }
    }
}

/// What converting `value` to `target` gives: the value itself when its tag
/// is exactly `target`, and nothing otherwise. No kind is coerced to another.
pub open spec fn converted(value: OptionValue, target: OptionType) -> Option<OptionValue> {
    if value.kind_of() == target {
        Some(value)
    } else {
        None
    }
}

/// The value behind an optional reference.
pub open spec fn deref_value(o: Option<&OptionValue>) -> Option<OptionValue> {
    match o {
        Some(v) => Some(*v),
        None => None,
    }
}

/// Converts a raw value to the native value of kind `target`.
pub fn convert(value: &OptionValue, target: OptionType) -> (r: Option<&OptionValue>)
    ensures
        deref_value(r) == converted(*value, target),
{
    if value.kind() == target {
        Some(value)
    } else {
        None
    }
}

/// A 64-bit float option value, held as its IEEE-754 bit pattern.
#[derive(Clone, Copy, Debug, PartialEq, Eq, Structural)]
pub struct Number {
    pub bits: u64,
}

/// The identifier of an attachment.
#[derive(Clone, Copy, Debug, PartialEq, Eq, Structural)]
pub struct AttachmentId(pub u64);

/// The identifier of a channel.
#[derive(Clone, Copy, Debug, PartialEq, Eq, Structural)]
pub struct ChannelId(pub u64);

/// The identifier of a role.
#[derive(Clone, Copy, Debug, PartialEq, Eq, Structural)]
pub struct RoleId(pub u64);

/// The identifier of a user.
#[derive(Clone, Copy, Debug, PartialEq, Eq, Structural)]
pub struct UserId(pub u64);

/// The identifier of a user or a role.
#[derive(Clone, Copy, Debug, PartialEq, Eq, Structural)]
pub struct MentionableId(pub u64);

/// A native type that an option value of one kind converts into.
pub trait FromOption: Sized {
    /// The native value that `value` gives, if it is of this type's kind.
    spec fn native_of(value: OptionValue) -> Option<Self>;

    fn from_option(value: OptionValue) -> (r: Option<Self>)
        ensures
            r == Self::native_of(value),
    ;
}

impl FromOption for bool {
    open spec fn native_of(value: OptionValue) -> Option<Self> {
        match value {
            OptionValue::Boolean(v) => Some(v),
            _ => None,
        }
    }

    fn from_option(value: OptionValue) -> (r: Option<Self>) {
        match value {
            OptionValue::Boolean(v) => Some(v),
            _ => None,
        }
    }
}

impl FromOption for i64 {
    open spec fn native_of(value: OptionValue) -> Option<Self> {
        match value {
            OptionValue::Integer(v) => Some(v),
            _ => None,
        }
    }

    fn from_option(value: OptionValue) -> (r: Option<Self>) {
        match value {
            OptionValue::Integer(v) => Some(v),
            _ => None,
        }
    }
}

impl FromOption for Number {
    open spec fn native_of(value: OptionValue) -> Option<Self> {
        match value {
            OptionValue::Number(v) => Some(Number { bits: v }),
            _ => None,
        }
    }

    fn from_option(value: OptionValue) -> (r: Option<Self>) {
        match value {
            OptionValue::Number(v) => Some(Number { bits: v }),
            _ => None,
        }
    }
}

impl FromOption for String {
    open spec fn native_of(value: OptionValue) -> Option<Self> {
        match value {
            OptionValue::String(v) => Some(v),
            _ => None,
        }
    }

    fn from_option(value: OptionValue) -> (r: Option<Self>) {
        match value {
            OptionValue::String(v) => Some(v),
            _ => None,
        }
    }
}

impl FromOption for AttachmentId {
    open spec fn native_of(value: OptionValue) -> Option<Self> {
        match value {
            OptionValue::Attachment(v) => Some(AttachmentId(v)),
            _ => None,
        }
    }

    fn from_option(value: OptionValue) -> (r: Option<Self>) {
        match value {
            OptionValue::Attachment(v) => Some(AttachmentId(v)),
            _ => None,
        }
    }
}

impl FromOption for ChannelId {
    open spec fn native_of(value: OptionValue) -> Option<Self> {
        match value {
            OptionValue::Channel(v) => Some(ChannelId(v)),
            _ => None,
        }
    }

    fn from_option(value: OptionValue) -> (r: Option<Self>) {
        match value {
            OptionValue::Channel(v) => Some(ChannelId(v)),
            _ => None,
        }
    }
}

impl FromOption for RoleId {
    open spec fn native_of(value: OptionValue) -> Option<Self> {
        match value {
            OptionValue::Role(v) => Some(RoleId(v)),
            _ => None,
        }
    }

    fn from_option(value: OptionValue) -> (r: Option<Self>) {
        match value {
            OptionValue::Role(v) => Some(RoleId(v)),
            _ => None,
        }
    }
}

impl FromOption for UserId {
    open spec fn native_of(value: OptionValue) -> Option<Self> {
        match value {
            OptionValue::User(v) => Some(UserId(v)),
            _ => None,
        }
    }

    fn from_option(value: OptionValue) -> (r: Option<Self>) {
        match value {
            OptionValue::User(v) => Some(UserId(v)),
            _ => None,
        }
    }
}

impl FromOption for MentionableId {
    open spec fn native_of(value: OptionValue) -> Option<Self> {
        match value {
            OptionValue::Mentionable(v) => Some(MentionableId(v)),
            _ => None,
        }
    }

    fn from_option(value: OptionValue) -> (r: Option<Self>) {
        match value {
            OptionValue::Mentionable(v) => Some(MentionableId(v)),
            _ => None,
        }
    }
}

impl FromOption for Vec<DataOption> {
    open spec fn native_of(value: OptionValue) -> Option<Self> {
        match value {
            OptionValue::SubCommandGroup(v) => Some(v),
            _ => None,
        }
    }

    fn from_option(value: OptionValue) -> (r: Option<Self>) {
        match value {
            OptionValue::SubCommandGroup(v) => Some(v),
            _ => None,
        }
    }
}

} // verus!
