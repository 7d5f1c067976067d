//! Where keys are kept under a key directory, and when they are loaded
//! from there rather than made anew.

use vstd::prelude::*;
use vstd::string::StringExecFns;
use crate::encrypter::parameters::SystemParameters;

verus! {

/// What to do for a key at construction.
#[derive(Clone, Copy, Debug, PartialEq, Eq)]
pub enum KeyPlan {
    /// Load the key from the key directory.
    Load,
    /// Make a fresh key and store it in the key directory.
    GenerateAndStore,
    /// Make a fresh key and keep it in memory only.
    Generate,
}

/// The directory of the secret key of the homomorphic scheme.
pub open spec fn fhe_key_directory_text(directory: Seq<char>, name: Seq<char>) -> Seq<char> {
    directory + "/keys/"@ + name + "/fhe"@
}

/// The file of the secret key of the homomorphic scheme.
pub open spec fn fhe_key_path_text(directory: Seq<char>, name: Seq<char>) -> Seq<char> {
    fhe_key_directory_text(directory, name) + "/secret_key"@
}

/// The directory of the symmetric keys.
pub open spec fn symmetric_key_directory_text(directory: Seq<char>, name: Seq<char>) -> Seq<char> {
    directory + "/keys/"@ + name + "/symmetric"@
}

/// The file of the symmetric key of the world of that descriptor.
pub open spec fn symmetric_key_path_text(
    directory: Seq<char>,
    name: Seq<char>,
    descriptor: Seq<char>,
) -> Seq<char> {
    symmetric_key_directory_text(directory, name) + "/key_"@ + descriptor
}

impl SystemParameters {
    /// The directory, under the key directory, of the secret key of the
    /// homomorphic scheme for the parameter set.
    pub fn fhe_key_directory(&self, directory: &str) -> (r: String)
        ensures
            r@ == fhe_key_directory_text(directory@, self.name_text()),
    {
        let mut path = String::from_str(directory);
        path.append("/keys/");
        path.append(self.name().as_str());
        path.append("/fhe");
        path
    }

    /// The file, under the key directory, of the secret key of the
    /// homomorphic scheme for the parameter set.
    pub fn fhe_key_path(&self, directory: &str) -> (r: String)
        ensures
            r@ == fhe_key_path_text(directory@, self.name_text()),
    {
        let mut path = self.fhe_key_directory(directory);
        path.append("/secret_key");
        path
    }

    /// The directory, under the key directory, of the symmetric keys for
    /// the parameter set.
    pub fn symmetric_key_directory(&self, directory: &str) -> (r: String)
        ensures
            r@ == symmetric_key_directory_text(directory@, self.name_text()),
    {
        let mut path = String::from_str(directory);
        path.append("/keys/");
        path.append(self.name().as_str());
        path.append("/symmetric");
        path
    }

    /// The file, under the key directory, of the symmetric key of the world
    /// of that descriptor for the parameter set.
    pub fn symmetric_key_path(&self, directory: &str, descriptor: &str) -> (r: String)
        ensures
            r@ == symmetric_key_path_text(directory@, self.name_text(), descriptor@),
    {
        let mut path = self.symmetric_key_directory(directory);
        path.append("/key_");
        path.append(descriptor);
        path
    }
}

/// What to do for the secret key of the homomorphic scheme: load it where a
/// key directory is set and holds the directory of the key; else make a
/// fresh one, and store it where a key directory is set.
pub fn fhe_key_plan(directory_set: bool, stored: bool) -> (r: KeyPlan)
    ensures
        r == if directory_set && stored {
            KeyPlan::Load
        } else if directory_set {
            KeyPlan::GenerateAndStore
        } else {
            KeyPlan::Generate
        },
{
    if directory_set && stored {
        KeyPlan::Load
    } else if directory_set {
        KeyPlan::GenerateAndStore
    } else {
        KeyPlan::Generate
    }
}

/// What to do for the symmetric keys of two ends made together: load both
/// where a key directory is set and holds the files of both; else make both
/// afresh, and store both where a key directory is set.
pub fn symmetric_key_plan(directory_set: bool, first_stored: bool, second_stored: bool) -> (r:
    KeyPlan)
    ensures
        r == if directory_set && first_stored && second_stored {
            KeyPlan::Load
        } else if directory_set {
            KeyPlan::GenerateAndStore
        } else {
            KeyPlan::Generate
        },
{
    if directory_set && first_stored && second_stored {
        KeyPlan::Load
    } else if directory_set {
        KeyPlan::GenerateAndStore
    } else {
        KeyPlan::Generate
    }
}

} // verus!
