//! The registry: the records of the collected declarations, each under a key
//! made of the kind of declaration and its name.

use crate::text::same_text;
use vstd::prelude::*;

verus! {

/// The records that were saved, oldest first, each with its key.
#[derive(Debug, Clone, PartialEq, Eq)]
pub struct Registry {
    /// The entries, oldest first: a key and a record.
    pub entries: Vec<(String, String)>,
}

impl DeepView for Registry {
    type V = Seq<(Seq<char>, Seq<char>)>;

    open spec fn deep_view(&self) -> Seq<(Seq<char>, Seq<char>)> {
        self.entries.deep_view()
    }
}

/// Why a declaration could not be loaded.
#[derive(Debug, Clone, PartialEq, Eq)]
pub enum RegistryError {
    /// Nothing was saved under the name.
    NotFound { name: String },
    /// What was saved under the name is no record of the kind asked for.
    Deserialization { name: String },
}

/// The contents of a `RegistryError`.
pub enum RegistryErrorView {
    NotFound { name: Seq<char> },
    Deserialization { name: Seq<char> },
}

impl DeepView for RegistryError {
    type V = RegistryErrorView;

    open spec fn deep_view(&self) -> RegistryErrorView {
        match self {
            RegistryError::NotFound { name } => RegistryErrorView::NotFound { name: name@ },
            RegistryError::Deserialization { name } => RegistryErrorView::Deserialization {
                name: name@,
            },
        }
    }
}

impl RegistryErrorView {
    /// The diagnostic. It names the declaration that was asked for.
    pub open spec fn message(self) -> Seq<char> {
        match self {
            RegistryErrorView::NotFound { name } => "Coastal could not find the declaration '"@
                + name + "'"@,
            RegistryErrorView::Deserialization { name } =>
                "Coastal failed to deserialise the state of declaration '"@ + name + "'"@,
        }
    }
}

impl RegistryError {
    /// Writes the diagnostic.
    pub fn message(&self) -> (out: String)
        ensures
            out@ == self.deep_view().message(),
    {
        match self {
            RegistryError::NotFound { name } => {
                let mut out = String::from_str("Coastal could not find the declaration '");
                out.append(name.as_str());
                out.append("'");
                out
            },
            RegistryError::Deserialization { name } => {
                let mut out = String::from_str(
                    "Coastal failed to deserialise the state of declaration '",
                );
                out.append(name.as_str());
                out.append("'");
                out
            },
        }
    }
}

/// The key of a declaration: the name of its kind, a dot, its own name.
pub open spec fn key_of(kind_name: Seq<char>, name: Seq<char>) -> Seq<char> {
    kind_name + "."@ + name
}

/// The record that stands under a key: the one saved last.
pub open spec fn record_of(entries: Seq<(Seq<char>, Seq<char>)>, key: Seq<char>) -> Option<
    Seq<char>,
>
    decreases entries.len(),
{
    if entries.len() == 0 {
        None
    } else if entries.last().0 == key {
        Some(entries.last().1)
    } else {
        record_of(entries.drop_last(), key)
    }
}

/// What loading under a name gives, for the record found under its key and a
/// way of reading records: the declaration that the record stands for. With
/// no record the name was not found; a record that cannot be read is an error
/// of its own.
pub open spec fn load_outcome<V>(
    found: Option<Seq<char>>,
    decoded: spec_fn(Seq<char>) -> Option<V>,
    name: Seq<char>,
) -> Result<V, RegistryErrorView> {
    match found {
        None => Err(RegistryErrorView::NotFound { name }),
        Some(record) => match decoded(record) {
            None => Err(RegistryErrorView::Deserialization { name }),
            Some(contents) => Ok(contents),
        },
    }
}

/// What loading a declaration of kind `T` gives: the declaration whose record
/// stands under the key of the name.
pub open spec fn loaded<T: State>(entries: Seq<(Seq<char>, Seq<char>)>, name: Seq<char>) -> Result<
    T::V,
    RegistryErrorView,
> {
    load_outcome(
        record_of(entries, key_of(T::kind_name(), name)),
        |record: Seq<char>| T::decoded(record),
        name,
    )
}

/// Writes the key of a declaration.
pub fn make_key(kind_name: &str, name: &str) -> (key: String)
    ensures
        key@ == key_of(kind_name@, name@),
{
    let mut key = String::from_str(kind_name);
    key.append(".");
    key.append(name);
    key
}

impl Registry {
    /// A registry without entries.
    pub fn new() -> (registry: Registry)
        ensures
            registry.deep_view() == Seq::<(Seq<char>, Seq<char>)>::empty(),
    {
        let registry = Registry { entries: Vec::new() };
        assert(registry.deep_view() =~= Seq::empty());
        registry
    }

    /// Saves a record under a key. A record saved earlier under the same key
    /// gives way to it.
    pub fn write(&mut self, key: String, record: String)
        ensures
            final(self).deep_view() == old(self).deep_view().push((key@, record@)),
    {
        let ghost before = self.deep_view();
        let ghost entry = (key@, record@);
        self.entries.push((key, record));
        assert(self.deep_view() =~= before.push(entry));
    }

    /// Looks up the record that stands under a key.
    pub fn read(&self, key: &str) -> (out: Option<&String>)
        ensures
            match out {
                Some(record) => record_of(self.deep_view(), key@) == Some(record@),
                None => record_of(self.deep_view(), key@) is None,
            },
    {
        let ghost entries = self.deep_view();
        let mut i: usize = self.entries.len();
        assert(entries.take(i as int) =~= entries);
        while i > 0
            invariant
                i <= self.entries.len(),
                entries == self.deep_view(),
                record_of(entries, key@) == record_of(entries.take(i as int), key@),
            decreases i,
        {
            i -= 1;
            proof {
                let upto = entries.take(i + 1);
                assert(upto.last() == entries[i as int]);
                assert(upto.drop_last() =~= entries.take(i as int));
            }
            if same_text(self.entries[i].0.as_str(), key) {
                return Some(&self.entries[i].1);
            }
        }
        None
    }
}

/// A kind of declaration that can be kept in the registry.
pub trait State: Sized + DeepView {
    /// The name of the kind, the first part of every key.
    spec fn kind_name() -> Seq<char>;

    /// The declarations of this kind that can be kept: those that are well
    /// formed.
    spec fn representable(contents: Self::V) -> bool;

    /// The record of a declaration.
    spec fn encoded(contents: Self::V) -> Seq<char>;

    /// The declaration that a record stands for.
    spec fn decoded(record: Seq<char>) -> Option<Self::V>;

    /// Reading the record of a declaration that can be kept gives the
    /// declaration back.
    proof fn lemma_round_trip(contents: Self::V)
        requires
            Self::representable(contents),
        ensures
            Self::decoded(Self::encoded(contents)) == Some(contents),
    ;

    /// Only declarations that can be kept are read from records.
    proof fn lemma_decoded_is_representable(record: Seq<char>)
        ensures
            Self::decoded(record) matches Some(contents) ==> Self::representable(contents),
    ;

    /// The name of the kind.
    fn kind_text() -> (name: &'static str)
        ensures
            name@ == Self::kind_name(),
    ;

    /// Writes the record of the declaration.
    fn encode(&self) -> (record: String)
        ensures
            record@ == Self::encoded(self.deep_view()),
    ;

    /// Reads a record. A text that is no record of this kind gives none.
    fn decode(record: &str) -> (out: Option<Self>)
        ensures
            out.deep_view() == Self::decoded(record@),
    ;

    /// Saves the declaration under a name.
    fn save_state(&self, registry: &mut Registry, name: &str)
        ensures
            final(registry).deep_view() == old(registry).deep_view().push(
                (key_of(Self::kind_name(), name@), Self::encoded(self.deep_view())),
            ),
    {
        registry.write(make_key(Self::kind_text(), name), self.encode());
    }

    /// Loads the declaration that was saved last under a name.
    fn load_state(registry: &Registry, name: &str) -> (out: Result<Self, RegistryError>)
        ensures
            match out {
                Ok(value) => load_outcome(
                    record_of(registry.deep_view(), key_of(Self::kind_name(), name@)),
                    |record: Seq<char>| Self::decoded(record),
                    name@,
                ) == Ok::<_, RegistryErrorView>(value.deep_view()),
                Err(error) => load_outcome(
                    record_of(registry.deep_view(), key_of(Self::kind_name(), name@)),
                    |record: Seq<char>| Self::decoded(record),
                    name@,
                ) == Err::<Self::V, _>(error.deep_view()),
            },
    {
        let key = make_key(Self::kind_text(), name);
        match registry.read(key.as_str()) {
            None => Err(RegistryError::NotFound { name: String::from_str(name) }),
            Some(record) => match Self::decode(record.as_str()) {
                None => Err(RegistryError::Deserialization { name: String::from_str(name) }),
                Some(value) => Ok(value),
            },
        }
    }
}

} // verus!
