//! Dispatching the command line to the registered commands.

use vstd::prelude::*;
use crate::errors::Result;

verus! {

/// The commands of the program, by name. The registrations are kept in a
/// `Vec`, in order, and looked up from the last: with a `String` key, a
/// `HashMap` is accepted by Verus but nothing of what it holds can be proved,
/// so the map is the one its view describes ([`spec_command_map`]). The
/// runner is a value that its owner registers into and runs, so it needs no
/// lock.
pub struct CliRunner<F> {
    /// Registrations in order; a later one for a name replaces the earlier.
    pub command_map: Vec<(String, F)>,
}

/// The command registered under each name: the last registration wins.
pub open spec fn spec_command_map<F>(entries: Seq<(String, F)>) -> Map<Seq<char>, F>
    decreases entries.len(),
{
    if entries.len() == 0 {
        Map::empty()
    } else {
        spec_command_map(entries.drop_last()).insert(entries.last().0@, entries.last().1)
    }
}

impl<F> View for CliRunner<F> {
    type V = Map<Seq<char>, F>;

    open spec fn view(&self) -> Map<Seq<char>, F> {
        spec_command_map(self.command_map@)
    }
}

impl<F> CliRunner<F> {
    /// A runner with no command.
    pub fn new() -> (res: CliRunner<F>)
        ensures
            res@ == Map::<Seq<char>, F>::empty(),
    {
        CliRunner { command_map: Vec::new() }
    }

    /// Registers `func` under `command_name`, replacing any command of that
    /// name.
    pub fn register_command(&mut self, command_name: &str, func: F) -> (res: Result<()>)
        ensures
            res is Ok,
            final(self)@ == old(self)@.insert(command_name@, func),
    {
        self.command_map.push((command_name.to_owned(), func));
        assert(self.command_map@.drop_last() =~= old(self).command_map@);
        Ok(())
    }

    /// The command registered under `command_name`, if any.
    pub fn get_command(&self, command_name: &str) -> (res: Option<&F>)
        ensures
            match res {
                Some(f) => self@.contains_key(command_name@) && self@[command_name@] == *f,
                None => !self@.contains_key(command_name@),
            },
    {
        let key = command_name.to_owned();
        let mut i: usize = self.command_map.len();
        assert(self.command_map@.take(i as int) =~= self.command_map@);
        while i > 0
            invariant
                i <= self.command_map.len(),
                key@ == command_name@,
                spec_command_map(self.command_map@).contains_key(key@) ==>
                    spec_command_map(self.command_map@.take(i as int)).contains_key(key@)
                    && spec_command_map(self.command_map@)[key@] == spec_command_map(self.command_map@.take(i as int))[key@],
                !spec_command_map(self.command_map@).contains_key(key@) ==>
                    !spec_command_map(self.command_map@.take(i as int)).contains_key(key@),
            decreases i,
        {
            let ghost prefix = self.command_map@.take(i as int);
            assert(prefix.drop_last() =~= self.command_map@.take(i - 1));
            assert(prefix.last() == self.command_map@[i - 1]);
            if self.command_map[i - 1].0 == key {
                return Some(&self.command_map[i - 1].1);
            }
            i -= 1;
        }
        None
    }

    /// The command that the program's arguments name: the first argument
    /// after the program's own name, if it is registered.
    pub fn run(&self, args: &Vec<String>) -> (res: Option<&F>)
        ensures
            args@.len() < 2 ==> res is None,
            args@.len() >= 2 ==> match res {
                Some(f) => self@.contains_key(args@[1]@) && self@[args@[1]@] == *f,
                None => !self@.contains_key(args@[1]@),
            },
    {
        if args.len() < 2 {
            return None;
        }
        self.get_command(args[1].as_str())
    }
}

/// Registering a command and looking it up gives it back; registering under
/// one name leaves the commands of the other names as they were.
pub proof fn lemma_register_then_get<F>(before: Map<Seq<char>, F>, name: Seq<char>, func: F, other: Seq<char>)
    requires
        other != name,
    ensures
        before.insert(name, func).contains_key(name),
        before.insert(name, func)[name] == func,
        before.insert(name, func).contains_key(other) == before.contains_key(other),
        before.contains_key(other) ==> before.insert(name, func)[other] == before[other],
{
}

} // verus!
