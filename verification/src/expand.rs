//! The decisions of the `rpc` attribute: which mode its argument selects, which
//! expansion applies to the annotated item, and the fields that the persistent
//! mode adds to a struct.
use vstd::prelude::*;

verus! {

/// The mode that the attribute's argument selects.
#[derive(Clone, Copy, PartialEq, Eq, Structural, Debug)]
pub enum Attr {
    /// `#[rpc(Persistent)]`: one long-lived connection per client.
    Persistent,
    /// `#[rpc]`: one connection per call.
    NonPersistent,
}

/// What the annotated item parses as.
#[derive(Clone, Copy, PartialEq, Eq, Structural, Debug)]
pub enum ItemKind {
    Impl,
    Struct,
    Other,
}

/// The expansion that the attribute applies.
#[derive(Clone, Copy, PartialEq, Eq, Structural, Debug)]
pub enum Expansion {
    /// The persistent client and server for an `impl` block.
    Persistent,
    /// The one-call-per-connection client and server for an `impl` block.
    NonPersistent,
    /// The bookkeeping fields that the persistent server keeps in the struct.
    PersistentStruct,
}

/// The misuses of the attribute, each of which stops the expansion.
#[derive(Clone, Copy, PartialEq, Eq, Structural, Debug)]
pub enum MacroError {
    /// An argument other than nothing or a single `Persistent`.
    BadAttribute,
    /// A single argument that is a path rather than a plain identifier.
    AttributeNotIdent,
    /// The attribute stands on neither an `impl` block nor (in persistent mode) a struct.
    UnsupportedItem,
    /// A struct in persistent mode whose fields are not named.
    UnnamedFields,
}

/// The text that reports `e`.
pub open spec fn error_text(e: MacroError) -> Seq<char> {
    match e {
        MacroError::BadAttribute => "the attribute needs to be either `Persistent`, `PersistentClient, <type>` or nothing at all"@,
        MacroError::AttributeNotIdent => "the attribute needs to be a plain identifier"@,
        MacroError::UnsupportedItem => "using rpc on non impl/structs is not supported"@,
        MacroError::UnnamedFields => "persistent does not work on structs without named fields"@,
    }
}

impl MacroError {
    /// The text that reports this misuse.
    pub fn message(&self) -> (r: String)
        ensures
            r@ == error_text(*self),
    {
        match self {
            MacroError::BadAttribute => String::from_str(
                "the attribute needs to be either `Persistent`, `PersistentClient, <type>` or nothing at all",
            ),
            MacroError::AttributeNotIdent => String::from_str(
                "the attribute needs to be a plain identifier",
            ),
            MacroError::UnsupportedItem => String::from_str(
                "using rpc on non impl/structs is not supported",
            ),
            MacroError::UnnamedFields => String::from_str(
                "persistent does not work on structs without named fields",
            ),
        }
    }
}

/// The mode selected by the attribute's arguments, each given as the identifier
/// it is, or `None` for a path that is not a plain identifier.
pub open spec fn attr_of(paths: Seq<Option<String>>) -> Result<Attr, MacroError> {
    if paths.len() == 1 {
        match paths[0] {
            None => Err(MacroError::AttributeNotIdent),
            Some(p) => if p@ == "Persistent"@ {
                Ok(Attr::Persistent)
            } else {
                Err(MacroError::BadAttribute)
            },
        }
    } else if paths.len() == 0 {
        Ok(Attr::NonPersistent)
    } else {
        Err(MacroError::BadAttribute)
    }
}

/// The expansion for an item of kind `kind` under the mode `attr`.
pub open spec fn expansion_of(attr: Attr, kind: ItemKind) -> Result<Expansion, MacroError> {
    match kind {
        ItemKind::Impl => match attr {
            Attr::Persistent => Ok(Expansion::Persistent),
            Attr::NonPersistent => Ok(Expansion::NonPersistent),
        },
        ItemKind::Struct => match attr {
            Attr::Persistent => Ok(Expansion::PersistentStruct),
            Attr::NonPersistent => Err(MacroError::UnsupportedItem),
        },
        ItemKind::Other => Err(MacroError::UnsupportedItem),
    }
}

/// The mode that the attribute's arguments select.
pub fn parse_attr(paths: &Vec<Option<String>>) -> (r: Result<Attr, MacroError>)
    ensures
        r == attr_of(paths@),
{
    if paths.len() == 1 {
        match &paths[0] {
            None => Err(MacroError::AttributeNotIdent),
            Some(p) => {
                let persistent = String::from_str("Persistent");
                if *p == persistent {
                    Ok(Attr::Persistent)
                } else {
                    Err(MacroError::BadAttribute)
                }
            },
        }
    } else if paths.len() == 0 {
        Ok(Attr::NonPersistent)
    } else {
        Err(MacroError::BadAttribute)
    }
}

/// The expansion that the attribute applies: the arguments are checked first,
/// then the kind of the annotated item.
pub fn rpc_expansion(paths: &Vec<Option<String>>, kind: ItemKind) -> (r: Result<
    Expansion,
    MacroError,
>)
    ensures
        r == match attr_of(paths@) {
            Ok(a) => expansion_of(a, kind),
            Err(e) => Err(e),
        },
{
    let attr = parse_attr(paths)?;
    match kind {
        ItemKind::Impl => match attr {
            Attr::Persistent => Ok(Expansion::Persistent),
            Attr::NonPersistent => Ok(Expansion::NonPersistent),
        },
        ItemKind::Struct => match attr {
            Attr::Persistent => Ok(Expansion::PersistentStruct),
            Attr::NonPersistent => Err(MacroError::UnsupportedItem),
        },
        ItemKind::Other => Err(MacroError::UnsupportedItem),
    }
}

/// A named field of a struct: `name: ty`.
#[derive(Debug)]
pub struct StructField {
    pub name: String,
    pub ty: String,
}

/// The fields of a struct.
#[derive(Debug)]
pub enum StructFields {
    Named(Vec<StructField>),
    Unnamed,
    Unit,
}

/// The name and type of each field that the persistent mode adds to a struct, in order.
pub open spec fn added_field(i: int) -> (Seq<char>, Seq<char>) {
    if i == 0 {
        ("__client_channels"@, "std::collections::HashMap<u64, tokio::sync::mpsc::Sender<Vec<u8>>>"@)
    } else if i == 1 {
        ("__receiver"@, "tokio::sync::mpsc::Receiver<__MessageHandler>"@)
    } else if i == 2 {
        ("__sender"@, "tokio::sync::mpsc::Sender<__MessageHandler>"@)
    } else {
        ("id"@, "usize"@)
    }
}

/// Number of fields that the persistent mode adds to a struct.
pub const ADDED_FIELDS: usize = 4;

/// The field with the given name and type.
pub fn create_struct_field(name: &str, ty: &str) -> (f: StructField)
    ensures
        f.name@ == name@,
        f.ty@ == ty@,
{
    StructField { name: String::from_str(name), ty: String::from_str(ty) }
}

/// The fields of a struct in persistent mode: its own named fields, in order,
/// followed by the fields in which the server keeps its clients' channels, its
/// message queue and its id. A struct without named fields is refused.
pub fn persistent_struct(fields: StructFields) -> (r: Result<Vec<StructField>, MacroError>)
    ensures
        match fields {
            StructFields::Named(old_fields) => r matches Ok(new_fields) && {
                &&& new_fields@.len() == old_fields@.len() + ADDED_FIELDS
                &&& new_fields@.take(old_fields@.len() as int) == old_fields@
                &&& forall|i: int|
                    0 <= i < ADDED_FIELDS ==> {
                        &&& (#[trigger] new_fields@[old_fields@.len() + i]).name@ == added_field(i).0
                        &&& new_fields@[old_fields@.len() + i].ty@ == added_field(i).1
                    }
            },
            _ => r == Err::<Vec<StructField>, MacroError>(MacroError::UnnamedFields),
        },
{
    match fields {
        StructFields::Named(f) => {
            let ghost old_fields = f@;
            let mut f = f;
            f.push(
                create_struct_field(
                    "__client_channels",
                    "std::collections::HashMap<u64, tokio::sync::mpsc::Sender<Vec<u8>>>",
                ),
            );
            f.push(create_struct_field("__receiver", "tokio::sync::mpsc::Receiver<__MessageHandler>"));
            f.push(create_struct_field("__sender", "tokio::sync::mpsc::Sender<__MessageHandler>"));
            f.push(create_struct_field("id", "usize"));
            assert(f@.take(old_fields.len() as int) =~= old_fields);
            assert forall|i: int| 0 <= i < ADDED_FIELDS implies {
                &&& (#[trigger] f@[old_fields.len() + i]).name@ == added_field(i).0
                &&& f@[old_fields.len() + i].ty@ == added_field(i).1
            } by {
                if i == 0 {
                } else if i == 1 {
                } else if i == 2 {
                } else {
                }
            }
            Ok(f)
        },
        _ => Err(MacroError::UnnamedFields),
    }
}

} // verus!
