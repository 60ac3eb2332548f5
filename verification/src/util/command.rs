use vstd::prelude::*;
use vstd::utf8::{decode_utf8, valid_utf8};

verus! {

/// What `String::from_utf8_lossy` makes of bytes: their UTF-8 text, with
/// each invalid sequence replaced by U+FFFD.
pub uninterp spec fn utf8_lossy(bytes: Seq<u8>) -> Seq<char>;

/// Calls `String::from_utf8_lossy`; trusted to give `utf8_lossy(bytes)`, a
/// function of the bytes alone, which is their decoding when they are valid
/// UTF-8, as the documentation of `from_utf8_lossy` says.
#[verifier::external_body]
fn from_utf8_lossy(bytes: &[u8]) -> (r: String)
    ensures
        r@ == utf8_lossy(bytes@),
        valid_utf8(bytes@) ==> r@ == decode_utf8(bytes@),
{
    String::from_utf8_lossy(bytes).to_string()
}

/// What a finished shell command reported: its exit status and what it
/// wrote to its two output streams, as text.
#[derive(Clone, Debug)]
pub struct CommandOutput {
    status: String,
    stderr: String,
    stdout: String,
}

impl CommandOutput {
    /// The report of a command from its exit status (written out) and the
    /// bytes it wrote, read as UTF-8 with invalid sequences replaced.
    pub fn new(status: String, stderr: &[u8], stdout: &[u8]) -> (r: Self)
        ensures
            r.status()@ == status@,
            r.stderr()@ == utf8_lossy(stderr@),
            r.stdout()@ == utf8_lossy(stdout@),
    {
        CommandOutput { status, stderr: from_utf8_lossy(stderr), stdout: from_utf8_lossy(stdout) }
    }

    /// The exit status, written out.
    #[verifier::when_used_as_spec(spec_status)]
    pub fn status(&self) -> (r: &String)
        ensures
            r == self.spec_status(),
    {
        &self.status
    }

    /// What the command wrote to its error stream.
    #[verifier::when_used_as_spec(spec_stderr)]
    pub fn stderr(&self) -> (r: &String)
        ensures
            r == self.spec_stderr(),
    {
        &self.stderr
    }

    /// What the command wrote to its output stream.
    #[verifier::when_used_as_spec(spec_stdout)]
    pub fn stdout(&self) -> (r: &String)
        ensures
            r == self.spec_stdout(),
    {
        &self.stdout
    }

    pub closed spec fn spec_status(&self) -> &String {
        &self.status
    }

    pub closed spec fn spec_stderr(&self) -> &String {
        &self.stderr
    }

    pub closed spec fn spec_stdout(&self) -> &String {
        &self.stdout
    }
}

} // verus!
