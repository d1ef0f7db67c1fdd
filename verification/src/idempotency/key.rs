//! The client-supplied idempotency key.

use vstd::prelude::*;

verus! {

/// The longest key accepted, in bytes.
pub const MAX_KEY_BYTES: usize = 255;

/// Why a raw string is not an idempotency key.
#[derive(Clone, Copy, Debug, PartialEq, Eq, Structural)]
pub enum ValidationError {
    /// The string has no characters.
    Empty,
    /// The string takes more than `MAX_KEY_BYTES` bytes.
    TooLong,
}

/// The number of bytes that a string takes in UTF-8.
pub open spec fn byte_len(raw: Seq<char>) -> nat {
    vstd::utf8::encode_utf8(raw).len()
}

/// A string is a key when it is not empty and takes at most `MAX_KEY_BYTES` bytes.
pub open spec fn is_valid_key(raw: Seq<char>) -> bool {
    raw.len() > 0 && byte_len(raw) <= MAX_KEY_BYTES
}

/// A validated idempotency key: the raw string itself, never normalised.
#[derive(Debug)]
pub struct IdempotencyKey {
    raw: String,
}

impl View for IdempotencyKey {
    type V = Seq<char>;

    closed spec fn view(&self) -> Seq<char> {
        self.raw@
    }
}

/// The defect of a string that is not a key.
pub open spec fn key_defect(raw: Seq<char>) -> ValidationError {
    if raw.len() == 0 {
        ValidationError::Empty
    } else {
        ValidationError::TooLong
    }
}

impl ValidationError {
    /// What the error says, as a text.
    pub open spec fn message_spec(&self) -> Seq<char> {
        match self {
            ValidationError::Empty => "The idempotency key cannot be empty"@,
            ValidationError::TooLong => "The idempotency key must not be longer than 255 bytes"@,
        }
    }

    /// What the error says.
    pub fn message(&self) -> (message: &'static str)
        ensures
            message@ == self.message_spec(),
    {
        match self {
            ValidationError::Empty => "The idempotency key cannot be empty",
            ValidationError::TooLong => "The idempotency key must not be longer than 255 bytes",
        }
    }
}

impl IdempotencyKey {
    /// Every key satisfies `is_valid_key`.
    #[verifier::type_invariant]
    closed spec fn valid(&self) -> bool {
        is_valid_key(self.raw@)
    }

    /// Accepts `raw` unchanged when it is a valid key, and says why not otherwise.
    pub fn parse(raw: String) -> (result: Result<IdempotencyKey, ValidationError>)
        ensures
            result is Ok <==> is_valid_key(raw@),
            result matches Ok(key) ==> key@ == raw@,
            result matches Err(e) ==> e == key_defect(raw@),
    {
        if raw.as_str().is_empty() {
            return Err(ValidationError::Empty);
        }
        if raw.as_str().as_bytes().len() > MAX_KEY_BYTES {
            return Err(ValidationError::TooLong);
        }
        Ok(IdempotencyKey { raw })
    }

    /// The key as the client sent it. It is a valid key.
    pub fn as_str(&self) -> (raw: &str)
        ensures
            raw@ == self@,
            is_valid_key(self@),
    {
        proof {
            use_type_invariant(self);
        }
        self.raw.as_str()
    }

    /// Whether the key is this string, character for character.
    pub fn has_text(&self, other: &String) -> (same: bool)
        ensures
            same == (self@ == other@),
    {
        self.raw == *other
    }

    /// A copy of the key's text.
    pub fn to_text(&self) -> (text: String)
        ensures
            text@ == self@,
    {
        self.raw.clone()
    }
}

} // verus!
