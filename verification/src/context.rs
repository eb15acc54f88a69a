use vstd::prelude::*;

verus! {

/// Collects the lines a command run produces, keeping regular output and
/// error output apart, and remembers whether any error was reported. The
/// caller decides how to deliver the collected lines.
pub struct Ctx {
    pub output: Vec<String>,
    pub err_output: Vec<String>,
    pub errored: bool,
}

impl Ctx {
    /// A context over the two given line buffers, with no error reported
    /// yet.
    pub fn new(output: Vec<String>, err_output: Vec<String>) -> (r: Ctx)
        ensures
            r.output == output,
            r.err_output == err_output,
            r.errored == false,
    {
        Ctx { output, err_output, errored: false }
    }

    /// Appends one line to the regular output.
    pub fn writeln(&mut self, msg: String)
        ensures
            final(self).output@ == old(self).output@.push(msg),
            final(self).err_output == old(self).err_output,
            final(self).errored == old(self).errored,
    {
        self.output.push(msg);
    }

    /// Appends one line to the error output.
    pub fn ewriteln(&mut self, msg: String)
        ensures
            final(self).err_output@ == old(self).err_output@.push(msg),
            final(self).output == old(self).output,
            final(self).errored == old(self).errored,
    {
        self.err_output.push(msg);
    }

    /// Appends one line to the error output and records that an error
    /// was reported.
    pub fn error_without_exit(&mut self, msg: String)
        ensures
            final(self).err_output@ == old(self).err_output@.push(msg),
            final(self).output == old(self).output,
            final(self).errored == true,
    {
        self.err_output.push(msg);
        self.errored = true;
    }

    /// The regular output collected so far.
    pub fn output(&self) -> (r: &Vec<String>)
        ensures
            r@ == self.output@,
    {
        &self.output
    }
}

} // verus!
