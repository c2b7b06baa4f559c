//! Job submission: options, log placement, and the command line an LSF cluster runs.
use crate::text::{decimal, push_decimal};
use vstd::prelude::*;

verus! {

/// Where to place logs generated by a job.
#[derive(Clone, Debug, PartialEq, Eq)]
pub enum LogOutput {
    /// Save logs to standard output and standard error.
    Stdio,
    /// Save logs to the file at this path.
    File(String),
}

/// Job submission options.
#[derive(Clone, Debug, PartialEq, Eq)]
pub struct ExecOpts {
    /// Number of CPUs to use.
    pub cpus: Option<usize>,
    /// Number of machines to use.
    pub machines: usize,
    /// Where to place logs.
    pub logs: LogOutput,
}

impl Default for ExecOpts {
    fn default() -> (r: ExecOpts)
        ensures
            r.cpus is None,
            r.machines == 1,
            r.logs is Stdio,
    {
        ExecOpts { cpus: None, machines: 1, logs: LogOutput::Stdio }
    }
}

/// Executes commands locally.
#[derive(Copy, Clone, Debug, PartialEq, Eq, Hash, Default)]
pub struct LocalExecutor;

/// A command to run: its program, arguments, working directory and environment changes
/// (a variable set to a value, or removed).
#[derive(Clone, Debug, PartialEq, Eq)]
pub struct CommandLine {
    /// The program.
    pub program: String,
    /// The arguments.
    pub args: Vec<String>,
    /// The working directory, if set.
    pub current_dir: Option<String>,
    /// The environment changes.
    pub envs: Vec<(String, Option<String>)>,
}

/// The views of a sequence of strings.
pub open spec fn texts(v: Seq<String>) -> Seq<Seq<char>> {
    v.map_values(|s: String| s@)
}

/// An executor for submitting jobs to an LSF cluster.
#[derive(Clone, Debug, PartialEq, Eq)]
pub struct LsfExecutor {
    /// The command to use to submit jobs.
    bsub: String,
    /// The queue to which jobs should be submitted.
    queue: Option<String>,
}

/// A builder for an [`LsfExecutor`].
#[derive(Clone, Debug, PartialEq, Eq, Default)]
pub struct LsfExecutorBuilder {
    bsub: Option<String>,
    queue: Option<String>,
}

/// A field of a builder that was never set.
#[derive(Clone, Debug, PartialEq, Eq)]
pub struct UninitializedFieldError(pub String);

impl LsfExecutorBuilder {
    /// Sets the submission command.
    pub fn bsub(&mut self, bsub: &str) -> (r: &mut Self)
        ensures
            r.bsub_spec() == Some(bsub@),
            r.queue_spec() == old(self).queue_spec(),
            *final(self) == *final(r),
    {
        self.bsub = Some(bsub.to_owned());
        self
    }

    /// Sets the queue.
    pub fn queue(&mut self, queue: &str) -> (r: &mut Self)
        ensures
            r.queue_spec() == Some(queue@),
            r.bsub_spec() == old(self).bsub_spec(),
            *final(self) == *final(r),
    {
        self.queue = Some(queue.to_owned());
        self
    }

    /// The submission command set so far.
    pub closed spec fn bsub_spec(&self) -> Option<Seq<char>> {
        match self.bsub {
            Some(s) => Some(s@),
            None => None,
        }
    }

    /// The queue set so far.
    pub closed spec fn queue_spec(&self) -> Option<Seq<char>> {
        match self.queue {
            Some(s) => Some(s@),
            None => None,
        }
    }

    /// Builds the executor; both the submission command and the queue must be set.
    pub fn build(&self) -> (r: Result<LsfExecutor, UninitializedFieldError>)
        ensures
            match (self.bsub_spec(), self.queue_spec()) {
                (Some(b), Some(q)) => r matches Ok(e) && e.bsub_spec() == b && e.queue_spec()
                    == Some(q),
                (None, _) => r matches Err(e) && e.0@ == "bsub"@,
                (Some(_), None) => r matches Err(e) && e.0@ == "queue"@,
            },
    {
        let bsub = match &self.bsub {
            Some(b) => b.clone(),
            None => {
                return Err(UninitializedFieldError(String::from_str("bsub")));
            },
        };
        let queue = match &self.queue {
            Some(q) => q.clone(),
            None => {
                return Err(UninitializedFieldError(String::from_str("queue")));
            },
        };
        Ok(LsfExecutor { bsub, queue: Some(queue) })
    }
}

/// The arguments of an LSF submission: wait for the job (`-K`), the queue where one is
/// set (`-q`), the CPU count where one is requested (`-n`), then the program and its
/// arguments.
pub open spec fn submit_args(
    queue: Option<Seq<char>>,
    cpus: Option<usize>,
    program: Seq<char>,
    args: Seq<Seq<char>>,
) -> Seq<Seq<char>> {
    seq!["-K"@] + match queue {
        Some(q) => seq!["-q"@, q],
        None => Seq::empty(),
    } + match cpus {
        Some(n) => seq!["-n"@, decimal(n as nat)],
        None => Seq::empty(),
    } + seq![program] + args
}

impl LsfExecutor {
    /// The submission command.
    pub closed spec fn bsub_spec(&self) -> Seq<char> {
        self.bsub@
    }

    /// The queue, if set.
    pub closed spec fn queue_spec(&self) -> Option<Seq<char>> {
        match self.queue {
            Some(s) => Some(s@),
            None => None,
        }
    }

    /// The default executor: submits with `bsub` to the default queue.
    pub fn new_default() -> (r: LsfExecutor)
        ensures
            r.bsub_spec() == "bsub"@,
            r.queue_spec() is None,
    {
        LsfExecutor { bsub: String::from_str("bsub"), queue: None }
    }

    /// A builder for constructing an [`LsfExecutor`].
    pub fn builder() -> (r: LsfExecutorBuilder)
        ensures
            r.bsub_spec() is None,
            r.queue_spec() is None,
    {
        LsfExecutorBuilder { bsub: None, queue: None }
    }

    /// The LSF submission of `command`: the submission program with the arguments of
    /// [`submit_args`], in the command's working directory and with its environment
    /// changes.
    pub fn command(&self, command: &CommandLine, opts: &ExecOpts) -> (r: CommandLine)
        ensures
            r.program@ == self.bsub_spec(),
            texts(r.args@) == submit_args(
                self.queue_spec(),
                opts.cpus,
                command.program@,
                texts(command.args@),
            ),
            r.current_dir == command.current_dir,
            r.envs@ == command.envs@,
    {
        proof {
            reveal_strlit("-K");
            reveal_strlit("-q");
            reveal_strlit("-n");
        }
        let mut args: Vec<String> = Vec::new();
        args.push(String::from_str("-K"));
        let ghost mut expect: Seq<Seq<char>> = seq!["-K"@];
        if let Some(queue) = &self.queue {
            args.push(String::from_str("-q"));
            args.push(queue.clone());
            proof {
                expect = expect + seq!["-q"@, queue@];
            }
        }
        if let Some(cpus) = opts.cpus {
            args.push(String::from_str("-n"));
            let mut n = String::new();
            push_decimal(&mut n, cpus as u64);
            args.push(n);
            proof {
                expect = expect + seq!["-n"@, decimal(cpus as nat)];
            }
        }
        args.push(command.program.clone());
        proof {
            expect = expect + seq![command.program@];
        }
        assert(texts(args@) =~= expect);
        let mut i: usize = 0;
        while i < command.args.len()
            invariant
                i <= command.args@.len(),
                texts(args@) == expect + texts(command.args@).take(i as int),
            decreases command.args@.len() - i,
        {
            let ghost before = args@;
            args.push(command.args[i].clone());
            assert(texts(args@) =~= texts(before).push(command.args@[i as int]@));
            assert(texts(command.args@).take(i + 1) =~= texts(command.args@).take(i as int).push(
                command.args@[i as int]@,
            ));
            i = i + 1;
        }
        assert(texts(command.args@).take(command.args@.len() as int) =~= texts(command.args@));
        assert(expect + texts(command.args@) =~= submit_args(
            self.queue_spec(),
            opts.cpus,
            command.program@,
            texts(command.args@),
        ));
        let mut envs: Vec<(String, Option<String>)> = Vec::new();
        let mut j: usize = 0;
        while j < command.envs.len()
            invariant
                j <= command.envs@.len(),
                envs@ == command.envs@.take(j as int),
            decreases command.envs@.len() - j,
        {
            let (k, v) = &command.envs[j];
            envs.push((k.clone(), v.clone()));
            j = j + 1;
            assert(envs@ =~= command.envs@.take(j as int));
        }
        assert(envs@ =~= command.envs@);
        CommandLine {
            program: self.bsub.clone(),
            args,
            current_dir: command.current_dir.clone(),
            envs,
        }
    }
}

} // verus!
