//! Why a schema cannot be turned into records.

use crate::text::text_view;
use vstd::prelude::*;
use vstd::string::StringExecFns;

verus! {

/// A [`SchemaError`] as plain values.
pub enum SchemaErrorView {
    MissingTitle { property: Option<Seq<char>> },
    MissingProperties { property: Option<Seq<char>>, title: Option<Seq<char>> },
    UnsupportedRootType { type_tag: Seq<char> },
    UnsupportedFieldType { key: Seq<char>, type_tag: Seq<char> },
}

/// The first fault met in a schema. Where an object node is at fault,
/// `property` names the property under which it stands, and is `None` where
/// the node is the root.
#[derive(Debug, PartialEq, Eq)]
pub enum SchemaError {
    /// An object node has no title to name its record by.
    MissingTitle { property: Option<String> },
    /// An object node has no properties.
    MissingProperties { property: Option<String>, title: Option<String> },
    /// The root is not an object.
    UnsupportedRootType { type_tag: String },
    /// A property has a type that no field type stands for.
    UnsupportedFieldType { key: String, type_tag: String },
}

impl View for SchemaError {
    type V = SchemaErrorView;

    open spec fn view(&self) -> SchemaErrorView {
        match *self {
            SchemaError::MissingTitle { property } => SchemaErrorView::MissingTitle {
                property: text_view(property),
            },
            SchemaError::MissingProperties {
                property,
                title,
            } => SchemaErrorView::MissingProperties {
                property: text_view(property),
                title: text_view(title),
            },
            SchemaError::UnsupportedRootType { type_tag } => SchemaErrorView::UnsupportedRootType {
                type_tag: type_tag@,
            },
            SchemaError::UnsupportedFieldType {
                key,
                type_tag,
            } => SchemaErrorView::UnsupportedFieldType { key: key@, type_tag: type_tag@ },
        }
    }
}

/// The words for the object that stands under `property`.
pub open spec fn place_words(property: Option<Seq<char>>) -> Seq<char> {
    match property {
        Some(key) => "the object under the property `"@ + key + "`"@,
        None => "the root object"@,
    }
}

/// The words for the title of an object, where it has one.
pub open spec fn title_words(title: Option<Seq<char>>) -> Seq<char> {
    match title {
        Some(title) => " titled `"@ + title + "`"@,
        None => Seq::empty(),
    }
}

impl SchemaErrorView {
    /// The fault in words, with the property, the title and the type that
    /// it is about.
    pub open spec fn message(self) -> Seq<char> {
        match self {
            SchemaErrorView::MissingTitle { property } => place_words(property)
                + " has no title"@,
            SchemaErrorView::MissingProperties { property, title } => place_words(property)
                + title_words(title) + " has no properties"@,
            SchemaErrorView::UnsupportedRootType { type_tag } => "the root has the type `"@
                + type_tag + "`, but only an object can be turned into records"@,
            SchemaErrorView::UnsupportedFieldType { key, type_tag } => "the property `"@ + key
                + "` has the type `"@ + type_tag + "`, which no field type stands for"@,
        }
    }

    /// This fault, met in the node that stands under the property `key`: a
    /// fault that names no property yet names `key`, any other stays as it is.
    pub open spec fn under(self, key: Seq<char>) -> SchemaErrorView {
        match self {
            SchemaErrorView::MissingTitle { property: None } => SchemaErrorView::MissingTitle {
                property: Some(key),
            },
            SchemaErrorView::MissingProperties {
                property: None,
                title,
            } => SchemaErrorView::MissingProperties { property: Some(key), title },
            _ => self,
        }
    }
}

/// The words for the object that stands under `property`.
fn place_text(property: &Option<String>) -> (words: String)
    ensures
        words@ == place_words(text_view(*property)),
{
    match property {
        Some(key) => {
            let mut words = String::from_str("the object under the property `");
            words.append(key.as_str());
            words.append("`");
            words
        },
        None => String::from_str("the root object"),
    }
}

impl SchemaError {
    /// The fault in words, for the author of the schema.
    pub fn message(&self) -> (words: String)
        ensures
            words@ == self@.message(),
    {
        match self {
            SchemaError::MissingTitle { property } => {
                let mut words = place_text(property);
                words.append(" has no title");
                words
            },
            SchemaError::MissingProperties { property, title } => {
                let mut words = place_text(property);
                match title {
                    Some(text) => {
                        words.append(" titled `");
                        words.append(text.as_str());
                        words.append("`");
                    },
                    None => {},
                }
                assert(words@ =~= place_words(text_view(*property)) + title_words(
                    text_view(*title),
                ));
                words.append(" has no properties");
                words
            },
            SchemaError::UnsupportedRootType { type_tag } => {
                let mut words = String::from_str("the root has the type `");
                words.append(type_tag.as_str());
                words.append("`, but only an object can be turned into records");
                words
            },
            SchemaError::UnsupportedFieldType { key, type_tag } => {
                let mut words = String::from_str("the property `");
                words.append(key.as_str());
                words.append("` has the type `");
                words.append(type_tag.as_str());
                words.append("`, which no field type stands for");
                words
            },
        }
    }

    /// This fault, met in the node that stands under the property `key`.
    pub fn under(self, key: &str) -> (located: SchemaError)
        ensures
            located@ == self@.under(key@),
    {
        match self {
            SchemaError::MissingTitle { property: None } => SchemaError::MissingTitle {
                property: Some(key.to_owned()),
            },
            SchemaError::MissingProperties {
                property: None,
                title,
            } => SchemaError::MissingProperties { property: Some(key.to_owned()), title },
            other => other,
        }
    }
}

} // verus!
