//! The state a caller keeps between requests: the last batch and the
//! parameters it was generated with.

use crate::composition::{composed, well_formed};
use crate::error::GenerateError;
use crate::generator::{generate_password, validation, Args};
use vstd::prelude::*;
use vstd::string::StringExecFns;

verus! {

/// The longest password a request may ask for.
pub const MAX_LENGTH: usize = 1000;

/// The most passwords a request may ask for.
pub const MAX_COUNT: usize = 1000;

/// The length shown before anything was generated.
pub const DEFAULT_LENGTH: usize = 12;

/// The count shown before anything was generated.
pub const DEFAULT_COUNT: usize = 5;

/// A batch of passwords together with the request that produced it.
pub struct GeneratedPassword {
    pub passwords: Vec<String>,
    pub password_length: usize,
    pub num_of_passwords: usize,
    pub enabled_symbols: String,
}

/// What a request at the caller's boundary is answered with: `OutOfRange`
/// when the length or the count is above its ceiling, else what the
/// validation of the generator says.
pub open spec fn admission(length: nat, count: nat) -> Result<(), GenerateError> {
    if length > MAX_LENGTH || count > MAX_COUNT {
        Err(GenerateError::OutOfRange)
    } else {
        validation(length, count)
    }
}

/// The message a caller is shown for a request that failed with `error`. A
/// failure of the generator itself is introduced as such.
pub open spec fn failure_text(error: GenerateError) -> Seq<char> {
    match error {
        GenerateError::OutOfRange => error.message_text(),
        _ => "Failed to generate password due to "@ + error.message_text(),
    }
}

impl GeneratedPassword {
    /// The state before the first request: no passwords, the default length
    /// and count, no symbols enabled.
    pub fn new() -> (state: Self)
        ensures
            state.passwords@.len() == 0,
            state.password_length == DEFAULT_LENGTH,
            state.num_of_passwords == DEFAULT_COUNT,
            state.enabled_symbols@.len() == 0,
    {
        Self {
            passwords: Vec::new(),
            password_length: DEFAULT_LENGTH,
            num_of_passwords: DEFAULT_COUNT,
            enabled_symbols: String::new(),
        }
    }

    /// Generates a batch for the given parameters. A request that is not
    /// admitted fails with the message of its error. Every admitted request
    /// succeeds; the state then records the parameters, and holds as many
    /// passwords as asked for, each composed and well formed.
    pub fn generate_password(
        password_length: usize,
        num_of_passwords: usize,
        enabled_symbols: String,
    ) -> (res: Result<Self, String>)
        ensures
            match admission(password_length as nat, num_of_passwords as nat) {
                Err(e) => res matches Err(text) && text@ == failure_text(e),
                Ok(_) => res is Ok,
            },
            res matches Ok(state) ==> {
                &&& state.password_length == password_length
                &&& state.num_of_passwords == num_of_passwords
                &&& state.enabled_symbols@ == enabled_symbols@
                &&& state.passwords.len() == num_of_passwords
                &&& forall|i: int|
                    0 <= i < state.passwords.len() ==> composed(
                        #[trigger] state.passwords[i]@,
                        password_length as nat,
                        enabled_symbols@,
                    )
                &&& forall|i: int|
                    0 <= i < state.passwords.len() ==> well_formed(
                        #[trigger] state.passwords[i]@,
                        password_length as nat,
                        enabled_symbols@,
                    )
            },
    {
        if password_length > MAX_LENGTH || num_of_passwords > MAX_COUNT {
            return Err(GenerateError::OutOfRange.message());
        }
        let args = Args::new(password_length, num_of_passwords, enabled_symbols.clone());
        match generate_password(&args) {
            Ok(passwords) => Ok(
                Self { passwords, password_length, num_of_passwords, enabled_symbols },
            ),
            Err(e) => {
                let mut text = String::from_str("Failed to generate password due to ");
                text.append(e.message().as_str());
                Err(text)
            },
        }
    }
}

} // verus!
