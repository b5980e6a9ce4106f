//! The commands a session offers: what each is called, how it is described,
//! and which command an alias belongs to.

use crate::text::{
    contains_text, join, joined, lemma_contains_middle, lemma_contains_trans, lemma_contains_wider,
    str_equal, texts,
};
use vstd::prelude::*;

verus! {

/// One command as the operator sees it. The action itself stays with the
/// caller, which finds it by the command's position in the registry.
#[derive(Clone, Debug, PartialEq, Eq)]
pub struct CommandDescriptor {
    /// The names the command answers to.
    pub aliases: Vec<String>,
    /// The parameters the command takes, as shown in the help.
    pub params_help: String,
    /// What the command does, as shown in the help.
    pub description: String,
    /// Whether the command is offered in an interactive session only.
    pub interactive_only: bool,
}

/// A command descriptor as plain values.
pub struct CommandView {
    pub aliases: Seq<Seq<char>>,
    pub params_help: Seq<char>,
    pub description: Seq<char>,
    pub interactive_only: bool,
}

impl View for CommandDescriptor {
    type V = CommandView;

    open spec fn view(&self) -> CommandView {
        CommandView {
            aliases: texts(self.aliases@),
            params_help: self.params_help@,
            description: self.description@,
            interactive_only: self.interactive_only,
        }
    }
}

/// The descriptors of a list as plain values, in order.
pub open spec fn command_views(v: Seq<CommandDescriptor>) -> Seq<CommandView> {
    Seq::new(v.len(), |i: int| v[i]@)
}

/// Whether a command is offered in a session of the given kind.
pub open spec fn offered(interactive: bool, c: CommandView) -> bool {
    interactive || !c.interactive_only
}

/// The commands offered in a session of the given kind, in their given order.
pub open spec fn selected(interactive: bool, all: Seq<CommandView>) -> Seq<CommandView> {
    all.filter(|c: CommandView| offered(interactive, c))
}

/// A place where an alias stands: alias `j` of command `i`.
pub open spec fn is_place(cmds: Seq<CommandView>, i: int, j: int) -> bool {
    0 <= i < cmds.len() && 0 <= j < cmds[i].aliases.len()
}

/// Whether one place comes before another in registration order.
pub open spec fn comes_before(i0: int, j0: int, i: int, j: int) -> bool {
    i0 < i || (i0 == i && j0 < j)
}

/// Whether the alias at a place stands at an earlier place too.
pub open spec fn repeats(cmds: Seq<CommandView>, i: int, j: int) -> bool {
    &&& is_place(cmds, i, j)
    &&& exists|i0: int, j0: int|
        is_place(cmds, i0, j0) && comes_before(i0, j0, i, j) && #[trigger] cmds[i0].aliases[j0]
            == cmds[i].aliases[j]
}

/// Whether a place is the first, in registration order, whose alias was
/// registered before.
pub open spec fn first_repeat(cmds: Seq<CommandView>, i: int, j: int) -> bool {
    &&& repeats(cmds, i, j)
    &&& forall|i0: int, j0: int| comes_before(i0, j0, i, j) ==> !#[trigger] repeats(cmds, i0, j0)
}

/// No alias is registered twice, whether by two commands or by one.
pub open spec fn distinct_aliases(cmds: Seq<CommandView>) -> bool {
    forall|i: int, j: int| !#[trigger] repeats(cmds, i, j)
}

/// Whether command `i` answers to an alias.
pub open spec fn owns(cmds: Seq<CommandView>, i: int, alias: Seq<char>) -> bool {
    0 <= i < cmds.len() && cmds[i].aliases.contains(alias)
}

/// The command an alias belongs to, if it is registered.
pub open spec fn owner(cmds: Seq<CommandView>, alias: Seq<char>) -> Option<int> {
    if exists|i: int| owns(cmds, i, alias) {
        Some(choose|i: int| owns(cmds, i, alias))
    } else {
        None
    }
}

/// Where aliases are distinct, two places that hold the same alias are one place.
pub proof fn lemma_distinct_places(cmds: Seq<CommandView>, i1: int, j1: int, i2: int, j2: int)
    requires
        distinct_aliases(cmds),
        is_place(cmds, i1, j1),
        is_place(cmds, i2, j2),
        cmds[i1].aliases[j1] == cmds[i2].aliases[j2],
    ensures
        i1 == i2,
        j1 == j2,
{
    if comes_before(i1, j1, i2, j2) {
        assert(repeats(cmds, i2, j2));
    } else if comes_before(i2, j2, i1, j1) {
        assert(repeats(cmds, i1, j1));
    }
}

/// Where aliases are distinct, an alias belongs to the one command that
/// answers to it, and to no other.
pub proof fn lemma_owner_is_unique(cmds: Seq<CommandView>, i: int, alias: Seq<char>)
    requires
        distinct_aliases(cmds),
        owns(cmds, i, alias),
    ensures
        owner(cmds, alias) == Some(i),
        forall|k: int| owns(cmds, k, alias) ==> k == i,
{
    let j = choose|j: int| 0 <= j < cmds[i].aliases.len() && cmds[i].aliases[j] == alias;
    assert forall|k: int| owns(cmds, k, alias) implies k == i by {
        let jk = choose|jk: int| 0 <= jk < cmds[k].aliases.len() && cmds[k].aliases[jk] == alias;
        lemma_distinct_places(cmds, i, j, k, jk);
    }
}

/// The separator between the aliases of one command in the help.
pub open spec fn alias_separator() -> Seq<char> {
    " | "@
}

/// The heading of the help, after the line about the connection.
pub open spec fn usage_heading() -> Seq<char> {
    "usage: <command> <args>\n\nUse the following commands:\n\n"@
}

/// The help's entry for the command that prints the help.
pub open spec fn help_line() -> Seq<char> {
    "help | h \n\tPrints this help\n"@
}

/// The help's entry for the command that ends the session.
pub open spec fn quit_line() -> Seq<char> {
    "quit | q! \n\tExit this client\n"@
}

/// The help's entry for one command: its aliases, its parameters, and on a
/// line of its own, indented, what it does.
pub open spec fn entry_text(c: CommandView) -> Seq<char> {
    joined(c.aliases, alias_separator()) + " "@ + c.params_help + "\n\t"@ + c.description + "\n"@
}

/// The help's entries for a list of commands, in order.
pub open spec fn entries_text(cmds: Seq<CommandView>) -> Seq<char>
    decreases cmds.len(),
{
    if cmds.len() == 0 {
        Seq::empty()
    } else {
        entries_text(cmds.drop_last()) + entry_text(cmds.last())
    }
}

/// The whole help: the line about the connection, the heading, one entry for
/// each command in display order, the entries of the two built-in commands,
/// and two empty lines.
pub open spec fn help_for(info: Seq<char>, cmds: Seq<CommandView>) -> Seq<char> {
    info + "\n"@ + usage_heading() + entries_text(cmds) + help_line() + quit_line() + "\n\n"@
}

/// The entries of a list of commands hold the entry of each.
pub proof fn lemma_entries_hold_each(cmds: Seq<CommandView>, i: int)
    requires
        0 <= i < cmds.len(),
    ensures
        contains_text(entries_text(cmds), entry_text(cmds[i])),
    decreases cmds.len(),
{
    let front = entries_text(cmds.drop_last());
    let last = entry_text(cmds.last());
    if i == cmds.len() - 1 {
        lemma_contains_middle(front, last, Seq::empty());
        assert(front + last + Seq::<char>::empty() =~= front + last);
    } else {
        lemma_entries_hold_each(cmds.drop_last(), i);
        lemma_contains_wider(Seq::empty(), front, last, entry_text(cmds[i]));
        assert(Seq::<char>::empty() + front + last =~= front + last);
    }
}

/// The help shows every registered command: its entry, and in it the
/// command's aliases, its parameters and its description.
pub proof fn lemma_help_shows_command(info: Seq<char>, cmds: Seq<CommandView>, i: int)
    requires
        0 <= i < cmds.len(),
    ensures
        contains_text(help_for(info, cmds), entry_text(cmds[i])),
        contains_text(help_for(info, cmds), joined(cmds[i].aliases, alias_separator())),
        contains_text(help_for(info, cmds), cmds[i].params_help),
        contains_text(help_for(info, cmds), cmds[i].description),
{
    let help = help_for(info, cmds);
    let head = info + "\n"@ + usage_heading();
    let tail = help_line() + quit_line() + "\n\n"@;
    let c = cmds[i];
    let entry = entry_text(c);
    let names = joined(c.aliases, alias_separator());
    lemma_entries_hold_each(cmds, i);
    lemma_contains_wider(head, entries_text(cmds), tail, entry);
    assert(head + entries_text(cmds) + tail =~= help);
    lemma_contains_middle(Seq::empty(), names, " "@ + c.params_help + "\n\t"@ + c.description + "\n"@);
    assert(Seq::<char>::empty() + names + (" "@ + c.params_help + "\n\t"@ + c.description + "\n"@)
        =~= entry);
    lemma_contains_middle(names + " "@, c.params_help, "\n\t"@ + c.description + "\n"@);
    assert(names + " "@ + c.params_help + ("\n\t"@ + c.description + "\n"@) =~= entry);
    lemma_contains_middle(names + " "@ + c.params_help + "\n\t"@, c.description, "\n"@);
    lemma_contains_trans(help, entry, names);
    lemma_contains_trans(help, entry, c.params_help);
    lemma_contains_trans(help, entry, c.description);
}

/// Every alias of a command stands among the command's aliases as the help
/// shows them.
pub proof fn lemma_joined_holds_each(parts: Seq<Seq<char>>, sep: Seq<char>, j: int)
    requires
        0 <= j < parts.len(),
    ensures
        contains_text(joined(parts, sep), parts[j]),
    decreases parts.len(),
{
    if parts.len() == 1 {
        lemma_contains_middle(Seq::empty(), parts[0], Seq::empty());
        assert(Seq::<char>::empty() + parts[0] + Seq::<char>::empty() =~= parts[0]);
    } else {
        let front = joined(parts.drop_last(), sep);
        if j == parts.len() - 1 {
            lemma_contains_middle(front + sep, parts.last(), Seq::empty());
            assert(front + sep + parts.last() + Seq::<char>::empty() =~= joined(parts, sep));
        } else {
            lemma_joined_holds_each(parts.drop_last(), sep, j);
            lemma_contains_wider(Seq::empty(), front, sep + parts.last(), parts[j]);
            assert(Seq::<char>::empty() + front + (sep + parts.last()) =~= joined(parts, sep));
        }
    }
}

/// The help shows every alias of every registered command.
pub proof fn lemma_help_shows_alias(info: Seq<char>, cmds: Seq<CommandView>, i: int, j: int)
    requires
        is_place(cmds, i, j),
    ensures
        contains_text(help_for(info, cmds), cmds[i].aliases[j]),
{
    lemma_help_shows_command(info, cmds, i);
    lemma_joined_holds_each(cmds[i].aliases, alias_separator(), j);
    lemma_contains_trans(
        help_for(info, cmds),
        joined(cmds[i].aliases, alias_separator()),
        cmds[i].aliases[j],
    );
}

/// The help shows the two built-in commands, whatever is registered.
pub proof fn lemma_help_shows_built_ins(info: Seq<char>, cmds: Seq<CommandView>)
    ensures
        contains_text(help_for(info, cmds), help_line()),
        contains_text(help_for(info, cmds), quit_line()),
{
    let help = help_for(info, cmds);
    let head = info + "\n"@ + usage_heading() + entries_text(cmds);
    lemma_contains_middle(head, help_line(), quit_line() + "\n\n"@);
    assert(head + help_line() + (quit_line() + "\n\n"@) =~= help);
    lemma_contains_middle(head + help_line(), quit_line(), "\n\n"@);
}

/// Why a registry could not be built.
#[derive(Clone, Debug, PartialEq, Eq)]
pub enum RegistryError {
    /// The alias was registered twice.
    DuplicateAlias(String),
}

/// The commands of a session in display order. No alias is registered twice,
/// so every alias belongs to exactly one command.
#[derive(Debug)]
pub struct CommandRegistry {
    commands: Vec<CommandDescriptor>,
}

impl View for CommandRegistry {
    type V = Seq<CommandView>;

    closed spec fn view(&self) -> Seq<CommandView> {
        command_views(self.commands@)
    }
}

/// Tells whether the alias at a place was registered at an earlier place.
fn seen_before(cmds: &Vec<CommandDescriptor>, i: usize, j: usize) -> (seen: bool)
    requires
        is_place(command_views(cmds@), i as int, j as int),
    ensures
        seen == repeats(command_views(cmds@), i as int, j as int),
{
    let ghost views = command_views(cmds@);
    let mut i0: usize = 0;
    while i0 <= i
        invariant
            views == command_views(cmds@),
            is_place(views, i as int, j as int),
            i < cmds.len(),
            i0 <= i + 1,
            forall|a: int, b: int|
                is_place(views, a, b) && a < i0 && comes_before(a, b, i as int, j as int)
                    ==> #[trigger] views[a].aliases[b] != views[i as int].aliases[j as int],
        decreases i + 1 - i0,
    {
        let limit: usize = if i0 < i {
            cmds[i0].aliases.len()
        } else {
            j
        };
        let mut j0: usize = 0;
        while j0 < limit
            invariant
                views == command_views(cmds@),
                is_place(views, i as int, j as int),
                i0 <= i,
                j0 <= limit,
                limit <= views[i0 as int].aliases.len(),
                limit == if i0 < i {
                    views[i0 as int].aliases.len()
                } else {
                    j as nat
                },
                forall|b: int|
                    0 <= b < j0 ==> #[trigger] views[i0 as int].aliases[b]
                        != views[i as int].aliases[j as int],
            decreases limit - j0,
        {
            if str_equal(cmds[i0].aliases[j0].as_str(), cmds[i].aliases[j].as_str()) {
                assert(is_place(views, i0 as int, j0 as int));
                assert(comes_before(i0 as int, j0 as int, i as int, j as int));
                assert(views[i0 as int].aliases[j0 as int] == views[i as int].aliases[j as int]);
                return true;
            }
            j0 += 1;
        }
        i0 += 1;
    }
    false
}

/// Finds the first place, in registration order, whose alias was registered
/// before.
fn find_repeat(cmds: &Vec<CommandDescriptor>) -> (found: Option<(usize, usize)>)
    ensures
        match found {
            Some((i, j)) => first_repeat(command_views(cmds@), i as int, j as int),
            None => distinct_aliases(command_views(cmds@)),
        },
{
    let ghost views = command_views(cmds@);
    let mut i: usize = 0;
    while i < cmds.len()
        invariant
            views == command_views(cmds@),
            i <= cmds.len(),
            forall|a: int, b: int| a < i ==> !#[trigger] repeats(views, a, b),
        decreases cmds.len() - i,
    {
        let mut j: usize = 0;
        while j < cmds[i].aliases.len()
            invariant
                views == command_views(cmds@),
                i < cmds.len(),
                j <= cmds[i as int].aliases.len(),
                forall|a: int, b: int|
                    comes_before(a, b, i as int, j as int) ==> !#[trigger] repeats(views, a, b),
            decreases cmds[i as int].aliases.len() - j,
        {
            if seen_before(cmds, i, j) {
                return Some((i, j));
            }
            j += 1;
        }
        i += 1;
    }
    None
}

impl CommandDescriptor {
    /// A descriptor with the same contents.
    pub fn duplicate(&self) -> (out: CommandDescriptor)
        ensures
            out@ == self@,
    {
        let mut aliases: Vec<String> = Vec::new();
        let mut j: usize = 0;
        while j < self.aliases.len()
            invariant
                j <= self.aliases.len(),
                aliases@ == self.aliases@.take(j as int),
            decreases self.aliases.len() - j,
        {
            aliases.push(self.aliases[j].clone());
            j += 1;
        }
        assert(aliases@ =~= self.aliases@);
        CommandDescriptor {
            aliases,
            params_help: self.params_help.clone(),
            description: self.description.clone(),
            interactive_only: self.interactive_only,
        }
    }
}

impl CommandRegistry {
    #[verifier::type_invariant]
    spec fn aliases_are_distinct(&self) -> bool {
        distinct_aliases(command_views(self.commands@))
    }

    /// Builds the registry of a session from the commands on offer.
    ///
    /// The commands that the kind of session admits are registered in their
    /// given order. Building fails exactly when two of their aliases are the
    /// same; the error names the first alias, in registration order, that was
    /// registered before.
    pub fn build(interactive: bool, candidates: &Vec<CommandDescriptor>) -> (built: Result<
        CommandRegistry,
        RegistryError,
    >)
        ensures
            match built {
                Ok(registry) => {
                    &&& registry@ == selected(interactive, command_views(candidates@))
                    &&& distinct_aliases(registry@)
                },
                Err(RegistryError::DuplicateAlias(alias)) => exists|i: int, j: int|
                    first_repeat(selected(interactive, command_views(candidates@)), i, j)
                        && alias@ == #[trigger] selected(
                        interactive,
                        command_views(candidates@),
                    )[i].aliases[j],
            },
    {
        let ghost all = command_views(candidates@);
        let mut commands: Vec<CommandDescriptor> = Vec::new();
        let mut k: usize = 0;
        while k < candidates.len()
            invariant
                all == command_views(candidates@),
                k <= candidates.len(),
                command_views(commands@) == selected(interactive, all.take(k as int)),
            decreases candidates.len() - k,
        {
            proof {
                reveal(Seq::filter);
                assert(all.take(k + 1).drop_last() =~= all.take(k as int));
                assert(all.take(k + 1).last() == candidates@[k as int]@);
            }
            if interactive || !candidates[k].interactive_only {
                let c = candidates[k].duplicate();
                assert(command_views(commands@.push(c)) =~= command_views(commands@).push(c@));
                commands.push(c);
            }
            k += 1;
        }
        assert(all.take(k as int) =~= all);
        match find_repeat(&commands) {
            Some((i, j)) => {
                let alias = commands[i].aliases[j].clone();
                Err(RegistryError::DuplicateAlias(alias))
            },
            None => Ok(CommandRegistry { commands }),
        }
    }

    /// The number of registered commands.
    pub fn len(&self) -> (n: usize)
        ensures
            n == self@.len(),
    {
        self.commands.len()
    }

    /// The registered commands in display order.
    pub fn commands(&self) -> (out: &Vec<CommandDescriptor>)
        ensures
            command_views(out@) == self@,
    {
        &self.commands
    }

    /// Writes the help: what the session is connected to, then every
    /// registered command in display order, then the built-in commands.
    pub fn help_text(&self, info: &str) -> (out: String)
        ensures
            out@ == help_for(info@, self@),
    {
        let ghost head = info@ + "\n"@ + usage_heading();
        let mut out = info.to_owned();
        out.append("\n");
        out.append("usage: <command> <args>\n\nUse the following commands:\n\n");
        let mut i: usize = 0;
        assert(out@ + entries_text(self@.take(0)) =~= out@);
        while i < self.commands.len()
            invariant
                i <= self.commands.len(),
                head == info@ + "\n"@ + usage_heading(),
                out@ == head + entries_text(self@.take(i as int)),
            decreases self.commands.len() - i,
        {
            let c = &self.commands[i];
            let names = join(&c.aliases, " | ");
            proof {
                let upto = self@.take(i + 1);
                assert(upto.drop_last() =~= self@.take(i as int));
                assert(upto.last() == c@);
                assert(head + entries_text(upto.drop_last()) + names@ + " "@ + c@.params_help
                    + "\n\t"@ + c@.description + "\n"@ =~= head + entries_text(upto));
            }
            out.append(names.as_str());
            out.append(" ");
            out.append(c.params_help.as_str());
            out.append("\n\t");
            out.append(c.description.as_str());
            out.append("\n");
            i += 1;
        }
        assert(self@.take(i as int) =~= self@);
        out.append("help | h \n\tPrints this help\n");
        out.append("quit | q! \n\tExit this client\n");
        out.append("\n\n");
        out
    }

    /// Finds the command that an alias belongs to: its position in display
    /// order, or nothing where the alias is not registered.
    pub fn lookup(&self, alias: &str) -> (found: Option<usize>)
        ensures
            distinct_aliases(self@),
            match found {
                Some(i) => owner(self@, alias@) == Some(i as int),
                None => owner(self@, alias@) is None,
            },
    {
        proof {
            use_type_invariant(self);
        }
        let ghost views = self@;
        let mut i: usize = 0;
        while i < self.commands.len()
            invariant
                views == command_views(self.commands@),
                distinct_aliases(views),
                i <= self.commands.len(),
                forall|a: int| 0 <= a < i ==> !owns(views, a, alias@),
            decreases self.commands.len() - i,
        {
            let mut j: usize = 0;
            while j < self.commands[i].aliases.len()
                invariant
                    views == command_views(self.commands@),
                    distinct_aliases(views),
                    i < self.commands.len(),
                    j <= self.commands[i as int].aliases.len(),
                    forall|b: int| 0 <= b < j ==> views[i as int].aliases[b] != alias@,
                decreases self.commands[i as int].aliases.len() - j,
            {
                if str_equal(self.commands[i].aliases[j].as_str(), alias) {
                    proof {
                        assert(views[i as int].aliases[j as int] == alias@);
                        assert(owns(views, i as int, alias@));
                        lemma_owner_is_unique(views, i as int, alias@);
                    }
                    return Some(i);
                }
                j += 1;
            }
            i += 1;
        }
        None
    }
}

} // verus!
