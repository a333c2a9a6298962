//! The command line of a service.

use vstd::prelude::*;

verus! {

/// The program of a service and its arguments. The argument vector is never
/// empty: its first element is the executable.
#[derive(Debug, PartialEq, Eq)]
pub struct Process {
    argv: Vec<String>,
}

impl Process {
    /// The argument vector: the executable, then its arguments.
    pub closed spec fn argv(&self) -> Seq<String> {
        self.argv@
    }

    #[verifier::type_invariant]
    closed spec fn has_binary(&self) -> bool {
        self.argv@.len() > 0
    }

    /// A process with the given argument vector; none if the vector is empty.
    pub fn new(argv: Vec<String>) -> (process: Option<Process>)
        ensures
            process is Some == (argv@.len() > 0),
            process matches Some(p) ==> p.argv() == argv@,
    {
        if argv.len() == 0 {
            None
        } else {
            Some(Process { argv })
        }
    }

    /// The whole argument vector. It is never empty.
    pub fn argv_list(&self) -> (argv: &Vec<String>)
        ensures
            argv@ == self.argv(),
            argv@.len() > 0,
    {
        proof {
            use_type_invariant(self);
        }
        &self.argv
    }

    /// The executable: the first element of the argument vector.
    pub fn binary(&self) -> (binary: &String)
        ensures
            self.argv().len() > 0,
            *binary == self.argv()[0],
    {
        proof {
            use_type_invariant(self);
        }
        &self.argv[0]
    }

    /// The arguments handed to the executable: all of the vector but its
    /// first element.
    pub fn args(&self) -> (args: Vec<String>)
        ensures
            self.argv().len() > 0,
            args@ == self.argv().subrange(1, self.argv().len() as int),
    {
        proof {
            use_type_invariant(self);
        }
        let mut args: Vec<String> = Vec::new();
        let mut i: usize = 1;
        while i < self.argv.len()
            invariant
                1 <= i <= self.argv@.len(),
                args@ == self.argv@.subrange(1, i as int),
            decreases self.argv@.len() - i,
        {
            args.push(self.argv[i].clone());
            assert(args@ =~= self.argv@.subrange(1, i as int + 1));
            i += 1;
        }
        args
    }
}

} // verus!
