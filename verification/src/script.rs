use vstd::prelude::*;

verus! {

/// Runs scripts with the Python interpreter found at a path.
#[derive(Debug)]
pub struct PyRunner {
    python_path: String,
}

impl PyRunner {
    /// The path of the interpreter.
    pub closed spec fn path(self) -> String {
        self.python_path
    }

    /// A runner for the interpreter at `python_path`.
    pub fn new(python_path: String) -> (r: PyRunner)
        ensures
            r.path() == python_path,
    {
        PyRunner { python_path }
    }

    /// The path of the interpreter.
    pub fn get_script_path(&self) -> (r: String)
        ensures
            r == self.path(),
    {
        self.python_path.clone()
    }
}

impl Clone for PyRunner {
    fn clone(&self) -> (r: Self)
        ensures
            r.path() == self.path(),
    {
        PyRunner { python_path: self.python_path.clone() }
    }
}

/// Runs the stored scripts.
#[derive(Debug)]
pub struct ScriptAction;

} // verus!
