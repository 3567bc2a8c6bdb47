//! A value kept in memory beside a durable text resource.
//!
//! The value in memory is the one that counts. The durable resource is read
//! only when the store is asked to load and written only when it is asked to
//! save; the store itself touches no file: it takes the text that was read
//! and hands out the text to write.

use vstd::prelude::*;

verus! {

/// Declares `std::io::Error`, of which nothing but its identity is known.
#[verifier::external_type_specification]
#[verifier::external_body]
pub struct ExIoError(std::io::Error);

/// Why a synchronisation between memory and the durable resource failed.
#[derive(Debug)]
pub enum SyncError {
    /// The durable resource could not be read or written.
    IoError(std::io::Error),
    /// The value in memory, or the durable resource, is behind a poisoned
    /// lock and out of reach.
    PoisonError,
}

/// A value with a text form. Decoding is total, and it undoes encoding.
pub trait TextForm: Sized + View {
    /// What a text decodes to. Every text decodes to something.
    spec fn decoded(text: Seq<char>) -> Self::V;

    /// Whether `text` is a text form of `value`; a value may have several.
    spec fn encodes(value: Self::V, text: Seq<char>) -> bool;

    /// What a value is before anything was loaded.
    spec fn initial() -> Self::V;

    /// Decoding a text form of a value gives that value.
    proof fn lemma_decoded_encoding(value: Self::V, text: Seq<char>)
        requires
            Self::encodes(value, text),
        ensures
            Self::decoded(text) == value,
    ;

    /// The value before anything was loaded.
    fn initial_value() -> (r: Self)
        ensures
            r@ == Self::initial(),
    ;

    /// Decodes `text`.
    fn from_text(text: &str) -> (r: Self)
        ensures
            r@ == Self::decoded(text@),
    ;

    /// Encodes the value.
    fn to_text(&self) -> (text: String)
        ensures
            Self::encodes(self@, text@),
    ;
}

/// A value in memory that mirrors a durable text resource.
///
/// A store is made to be shared behind a lock. Where that lock is found
/// poisoned, `poison` says so to the store: from then on the value is out of
/// reach, as it is behind such a lock, and every access fails.
pub struct SimpleStorage<V> {
    mem_storage: V,
    poisoned: bool,
}

impl<V: View> View for SimpleStorage<V> {
    type V = V::V;

    /// What the value in memory stands for.
    open spec fn view(&self) -> V::V {
        self.value()@
    }
}

impl<V> SimpleStorage<V> {
    /// The value in memory.
    pub closed spec fn value(&self) -> V {
        self.mem_storage
    }

    /// Whether the value in memory is out of reach.
    pub closed spec fn is_poisoned(&self) -> bool {
        self.poisoned
    }

    /// The value in memory, to read.
    pub fn mem_storage(&self) -> (r: Result<&V, SyncError>)
        ensures
            self.is_poisoned() ==> r matches Err(SyncError::PoisonError),
            !self.is_poisoned() ==> (r matches Ok(v) && *v == self.value()),
    {
        if self.poisoned {
            Err(SyncError::PoisonError)
        } else {
            Ok(&self.mem_storage)
        }
    }

    /// The value in memory, to change. What the caller leaves behind the
    /// reference is the store's new value.
    pub fn mutable_mem_storage(&mut self) -> (r: Result<&mut V, SyncError>)
        ensures
            old(self).is_poisoned() ==> r matches Err(SyncError::PoisonError),
            old(self).is_poisoned() ==> *final(self) == *old(self),
            !old(self).is_poisoned() ==> (r matches Ok(v) && *v == old(self).value()
                && final(self).value() == *final(v) && !final(self).is_poisoned()),
    {
        if self.poisoned {
            Err(SyncError::PoisonError)
        } else {
            Ok(&mut self.mem_storage)
        }
    }

    /// Puts the value in memory out of reach, for good.
    pub fn poison(&mut self)
        ensures
            final(self).is_poisoned(),
            final(self).value() == old(self).value(),
    {
        self.poisoned = true;
    }

    /// Whether the value in memory is out of reach.
    pub fn poisoned(&self) -> (r: bool)
        ensures
            r == self.is_poisoned(),
    {
        self.poisoned
    }
}

impl<V: TextForm> SimpleStorage<V> {
    /// A store whose value is the initial one. Nothing is loaded yet.
    pub fn new() -> (r: Self)
        ensures
            r@ == V::initial(),
            !r.is_poisoned(),
    {
        SimpleStorage { mem_storage: V::initial_value(), poisoned: false }
    }

    /// Replaces the value in memory by what the durable resource holds.
    /// `read` is the outcome of reading the whole resource from its start.
    /// A failed read is handed on and leaves the store as it is, and so does
    /// a poisoned store; otherwise the value is whatever the text decodes to.
    pub fn sync_mem_from_file(&mut self, read: Result<String, std::io::Error>) -> (r: Result<
        (),
        SyncError,
    >)
        ensures
            match read {
                Err(e) => r == Err::<(), SyncError>(SyncError::IoError(e))
                    && *final(self) == *old(self),
                Ok(text) => if old(self).is_poisoned() {
                    r == Err::<(), SyncError>(SyncError::PoisonError) && *final(self) == *old(self)
                } else {
                    r is Ok && final(self)@ == V::decoded(text@) && !final(self).is_poisoned()
                },
            },
    {
        match read {
            Err(e) => Err(SyncError::IoError(e)),
            Ok(text) => {
                if self.poisoned {
                    Err(SyncError::PoisonError)
                } else {
                    self.mem_storage = V::from_text(text.as_str());
                    Ok(())
                }
            },
        }
    }

    /// The text to overwrite the durable resource with: a text form of the
    /// value in memory, so that loading it again gives the same value. The
    /// store is left as it is. A poisoned store has no text to give.
    pub fn sync_file_from_mem(&self) -> (r: Result<String, SyncError>)
        ensures
            self.is_poisoned() ==> r == Err::<String, SyncError>(SyncError::PoisonError),
            !self.is_poisoned() ==> (r matches Ok(text) && V::encodes(self@, text@)
                && V::decoded(text@) == self@),
    {
        if self.poisoned {
            Err(SyncError::PoisonError)
        } else {
            let text = self.mem_storage.to_text();
            proof {
                V::lemma_decoded_encoding(self@, text@);
            }
            Ok(text)
        }
    }
}

/// What was saved is what is loaded: a text that a store hands out to be
/// written gives, when another store loads it, the value that the first one
/// had.
pub proof fn lemma_saved_is_loaded<V: TextForm>(saved: V::V, text: Seq<char>)
    requires
        V::encodes(saved, text),
    ensures
        V::decoded(text) == saved,
{
    V::lemma_decoded_encoding(saved, text);
}

} // verus!
