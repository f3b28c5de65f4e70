//! Running an external program and taking what it printed as text.

use crate::error::Error;
use crate::error::Failure;
use vstd::prelude::*;

verus! {

/// The arguments of a call, each as a sequence of characters.
pub open spec fn args_view(args: Seq<&str>) -> Seq<Seq<char>> {
    args.map_values(|a: &str| a@)
}

/// What a run gave, as a mathematical value: the bytes that the program
/// printed, or why it could not be run.
pub open spec fn output_view(r: Result<Vec<u8>, Error>) -> Result<Seq<u8>, Failure> {
    match r {
        Ok(bytes) => Ok(bytes@),
        Err(e) => Err(e@),
    }
}

/// The capability to run a program to its end and capture its standard
/// output. One implementation starts a process; others return fixed bytes.
pub trait SystemCommand {
    /// The outcomes that a run of `binary` with `args` can have. An
    /// implementation that always answers the same admits one outcome for
    /// each call. Unless an implementation says otherwise, every outcome is
    /// possible.
    open spec fn may_give(
        &self,
        binary: Seq<char>,
        args: Seq<Seq<char>>,
        outcome: Result<Seq<u8>, Failure>,
    ) -> bool {
        true
    }

    /// Runs `binary` with `args` and returns the bytes of its standard
    /// output, or the error that kept it from running.
    fn execute(&self, binary: &str, args: &[&str]) -> (r: Result<Vec<u8>, Error>)
        ensures
            self.may_give(binary@, args_view(args@), output_view(r)),
    ;
}

/// A command that runs nothing and answers every call with the same bytes.
#[derive(Clone, Debug)]
pub struct FixedOutput {
    pub output: Vec<u8>,
}

impl SystemCommand for FixedOutput {
    open spec fn may_give(
        &self,
        binary: Seq<char>,
        args: Seq<Seq<char>>,
        outcome: Result<Seq<u8>, Failure>,
    ) -> bool {
        outcome == Ok::<Seq<u8>, Failure>(self.output@)
    }

    fn execute(&self, binary: &str, args: &[&str]) -> (r: Result<Vec<u8>, Error>) {
        let copy = self.output.clone();
        assert(copy@ =~= self.output@);
        Ok(copy)
    }
}

/// Calls `String::from_utf8`. The call succeeds exactly on bytes that are
/// well-formed UTF-8, and the string it then returns holds the characters
/// that the bytes encode.
#[verifier::external_body]
pub(crate) fn string_from_utf8(bytes: Vec<u8>) -> (r: Result<String, std::string::FromUtf8Error>)
    ensures
        r is Ok <==> vstd::utf8::valid_utf8(bytes@),
        r matches Ok(s) ==> s@ == vstd::utf8::decode_utf8(bytes@),
{
    String::from_utf8(bytes)
}

/// Decodes the output of a program as text.
pub fn decode_output(output: Vec<u8>) -> (r: Result<String, Error>)
    ensures
        match r {
            Ok(text) => vstd::utf8::valid_utf8(output@) && text@ == vstd::utf8::decode_utf8(
                output@,
            ),
            Err(e) => !vstd::utf8::valid_utf8(output@) && e@ == Failure::Utf8Conversion,
        },
{
    match string_from_utf8(output) {
        Ok(text) => Ok(text),
        Err(source) => Err(Error::Utf8Conversion { source }),
    }
}

} // verus!
