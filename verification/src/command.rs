//! A program to be started: its name, its arguments and its environment.

use vstd::prelude::*;

use crate::text::texts;

verus! {

broadcast use crate::text::lemma_texts_push;

/// A program to be started, as data.
pub struct Invocation {
    pub program: String,
    pub args: Vec<String>,
    /// Whether the program finds nothing in its environment but what is set for
    /// it here.
    pub clear_env: bool,
    /// Variables set for the program, in the order in which they are set.
    pub env: Vec<(String, String)>,
    /// Variables taken out of the program's environment.
    pub unset: Vec<String>,
}

/// What an [`Invocation`] says, as plain text.
#[verifier::ext_equal]
pub struct InvocationView {
    pub program: Seq<char>,
    pub args: Seq<Seq<char>>,
    pub clear_env: bool,
    pub env: Seq<(Seq<char>, Seq<char>)>,
    pub unset: Seq<Seq<char>>,
}

/// Name and value of each variable.
pub open spec fn pairs(env: Seq<(String, String)>) -> Seq<(Seq<char>, Seq<char>)> {
    env.map_values(|e: (String, String)| (e.0@, e.1@))
}

impl View for Invocation {
    type V = InvocationView;

    open spec fn view(&self) -> InvocationView {
        InvocationView {
            program: self.program@,
            args: texts(self.args@),
            clear_env: self.clear_env,
            env: pairs(self.env@),
            unset: texts(self.unset@),
        }
    }
}

impl InvocationView {
    /// A program with arguments and nothing said of its environment.
    pub open spec fn plain(program: Seq<char>, args: Seq<Seq<char>>) -> InvocationView {
        InvocationView { program, args, clear_env: false, env: seq![], unset: seq![] }
    }
}

impl Invocation {
    pub fn new(program: &str) -> (out: Invocation)
        ensures
            out@ == InvocationView::plain(program@, seq![]),
    {
        let out = Invocation {
            program: program.to_string(),
            args: Vec::new(),
            clear_env: false,
            env: Vec::new(),
            unset: Vec::new(),
        };
        assert(out@ =~= InvocationView::plain(program@, seq![]));
        out
    }

    pub fn arg(&mut self, arg: &str)
        ensures
            final(self)@ == (InvocationView { args: old(self)@.args.push(arg@), ..old(self)@ }),
    {
        self.args.push(arg.to_string());
        assert(self@ =~= InvocationView { args: old(self)@.args.push(arg@), ..old(self)@ });
    }

    pub fn args(&mut self, args: &Vec<String>)
        ensures
            final(self)@ == (InvocationView {
                args: old(self)@.args + texts(args@),
                ..old(self)@
            }),
    {
        let mut i: usize = 0;
        assert(texts(args@.take(0)) =~= seq![]);
        assert(self@ =~= InvocationView {
            args: old(self)@.args + texts(args@.take(0)),
            ..old(self)@
        });
        while i < args.len()
            invariant
                i <= args@.len(),
                self@ == (InvocationView {
                    args: old(self)@.args + texts(args@.take(i as int)),
                    ..old(self)@
                }),
            decreases args@.len() - i,
        {
            self.arg(args[i].as_str());
            proof {
                assert(args@.take(i + 1) =~= args@.take(i as int).push(args@[i as int]));
                assert(old(self)@.args + texts(args@.take(i + 1)) =~= (old(self)@.args + texts(
                    args@.take(i as int),
                )).push(args@[i as int]@));
            }
            i += 1;
        }
        assert(args@.take(args@.len() as int) =~= args@);
    }

    pub fn clear_env(&mut self)
        ensures
            final(self)@ == (InvocationView { clear_env: true, ..old(self)@ }),
    {
        self.clear_env = true;
        assert(self@ =~= InvocationView { clear_env: true, ..old(self)@ });
    }

    pub fn env(&mut self, name: &str, value: &str)
        ensures
            final(self)@ == (InvocationView {
                env: old(self)@.env.push((name@, value@)),
                ..old(self)@
            }),
    {
        self.env.push((name.to_string(), value.to_string()));
        assert(self@ =~= InvocationView {
            env: old(self)@.env.push((name@, value@)),
            ..old(self)@
        });
    }

    pub fn unset(&mut self, name: &str)
        ensures
            final(self)@ == (InvocationView { unset: old(self)@.unset.push(name@), ..old(self)@ }),
    {
        self.unset.push(name.to_string());
        assert(self@ =~= InvocationView { unset: old(self)@.unset.push(name@), ..old(self)@ });
    }
}

/// A plain command is its program and its arguments, and leaves the environment as it
/// is.
pub proof fn law_plain_commands_leave_the_environment(program: Seq<char>, args: Seq<Seq<char>>)
    ensures
        InvocationView::plain(program, args).program == program,
        InvocationView::plain(program, args).args == args,
        !InvocationView::plain(program, args).clear_env,
        InvocationView::plain(program, args).env.len() == 0,
        InvocationView::plain(program, args).unset.len() == 0,
{
}

/// A command says exactly what it holds: its program, its arguments one by one, and what
/// is set, unset and cleared in its environment.
pub proof fn law_commands_say_what_they_hold(command: Invocation, i: int)
    ensures
        command@.program == command.program@,
        command@.clear_env == command.clear_env,
        command@.args.len() == command.args@.len(),
        command@.env.len() == command.env@.len(),
        command@.unset.len() == command.unset@.len(),
        0 <= i < command.args@.len() ==> command@.args[i] == command.args@[i]@,
        0 <= i < command.env@.len() ==> command@.env[i].0 == command.env@[i].0@ && command@.env[i].1
            == command.env@[i].1@,
        0 <= i < command.unset@.len() ==> command@.unset[i] == command.unset@[i]@,
{
}

} // verus!
