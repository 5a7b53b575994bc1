//! Running a session: its command line, its start and its end.
use crate::text::same_text;
use vstd::prelude::*;
use vstd::string::*;

verus! {

/// The arguments of a command line, behind a parser.
#[verifier::external_type_specification]
#[verifier::external_body]
pub struct ExRawArgs(clap_lex::RawArgs);

/// A position among the arguments of a command line.
#[verifier::external_type_specification]
#[verifier::external_body]
pub struct ExArgCursor(clap_lex::ArgCursor);

/// The arguments that a `clap_lex::RawArgs` holds: the text of each, or `None`
/// for one that is not valid text.
pub uninterp spec fn arguments(args: clap_lex::RawArgs) -> Seq<Option<Seq<char>>>;

/// The index of the argument that a `clap_lex::ArgCursor` stands before.
pub uninterp spec fn position(cursor: clap_lex::ArgCursor) -> nat;

/// `clap_lex::RawArgs::cursor` gives a cursor before the first argument.
pub assume_specification[ clap_lex::RawArgs::cursor ](args: &clap_lex::RawArgs) -> (cursor:
    clap_lex::ArgCursor)
    ensures
        position(cursor) == 0,
;

/// The text of an argument.
pub open spec fn argument_text(argument: Option<String>) -> Option<Seq<char>> {
    match argument {
        Some(text) => Some(text@),
        None => None,
    }
}

/// `clap_lex::RawArgs::next_os` gives the argument behind the cursor, as text
/// where it is valid text, and moves the cursor on by one, at most to the
/// largest index. Behind the last argument it gives nothing.
#[verifier::external_body]
fn next_argument(args: &clap_lex::RawArgs, cursor: &mut clap_lex::ArgCursor) -> (argument: Option<
    Option<String>,
>)
    ensures
        argument is Some <==> position(*old(cursor)) < arguments(*args).len(),
        argument matches Some(text) ==> argument_text(text) == arguments(*args)[position(
            *old(cursor),
        ) as int],
        position(*final(cursor)) == if position(*old(cursor)) < usize::MAX {
            position(*old(cursor)) + 1
        } else {
            position(*old(cursor))
        },
        argument is Some ==> position(*old(cursor)) < usize::MAX,
{
    args.next_os(cursor).map(|argument| argument.to_str().map(|text| text.to_owned()))
}

/// What a command line asks for.
#[derive(Debug, Clone, Copy, PartialEq, Eq, Structural)]
pub enum Invocation {
    ShowHelp,
    ShowVersion,
    /// Run a session. `kiosk_command` is the index of the argument that names a
    /// program to run in it; all later arguments are the program's own.
    Run { with_xwayland: bool, kiosk_command: Option<usize> },
}

/// Whether an argument asks for help.
pub open spec fn asks_help(text: Seq<char>) -> bool {
    text == "--help"@ || text == "-h"@
}

/// Whether an argument asks for the version.
pub open spec fn asks_version(text: Seq<char>) -> bool {
    text == "--version"@ || text == "-v"@ || text == "-V"@
}

/// What the arguments from `from` on ask for.
pub open spec fn invocation_from(
    args: Seq<Option<Seq<char>>>,
    from: int,
    with_xwayland: bool,
) -> Invocation
    decreases args.len() - from,
{
    if from < 0 || from >= args.len() {
        Invocation::Run { with_xwayland, kiosk_command: None }
    } else {
        match args[from] {
            Some(text) if asks_help(text) => Invocation::ShowHelp,
            Some(text) if text == "--no-xwayland"@ => invocation_from(args, from + 1, false),
            Some(text) if asks_version(text) => Invocation::ShowVersion,
            _ => Invocation::Run { with_xwayland, kiosk_command: Some(from as usize) },
        }
    }
}

/// One argument of a command line.
#[derive(Debug, Clone, Copy, PartialEq, Eq, Structural)]
pub enum ArgumentKind {
    Help,
    Version,
    NoXwayland,
    /// The name of a program.
    Program,
}

/// What an argument is.
pub open spec fn argument_kind_of(argument: Option<Seq<char>>) -> ArgumentKind {
    match argument {
        Some(text) if asks_help(text) => ArgumentKind::Help,
        Some(text) if text == "--no-xwayland"@ => ArgumentKind::NoXwayland,
        Some(text) if asks_version(text) => ArgumentKind::Version,
        _ => ArgumentKind::Program,
    }
}

/// What an argument is; one that is not valid text names a program.
pub fn argument_kind(argument: Option<&str>) -> (kind: ArgumentKind)
    ensures
        kind == argument_kind_of(
            match argument {
                Some(text) => Some(text@),
                None => None,
            },
        ),
{
    match argument {
        Some(text) => {
            proof {
                reveal_strlit("--help");
                reveal_strlit("-h");
                reveal_strlit("--no-xwayland");
                reveal_strlit("--version");
                reveal_strlit("-v");
                reveal_strlit("-V");
            }
            if same_text(text, "--help") || same_text(text, "-h") {
                ArgumentKind::Help
            } else if same_text(text, "--no-xwayland") {
                ArgumentKind::NoXwayland
            } else if same_text(text, "--version") || same_text(text, "-v") || same_text(
                text,
                "-V",
            ) {
                ArgumentKind::Version
            } else {
                ArgumentKind::Program
            }
        },
        None => ArgumentKind::Program,
    }
}

/// What a command line asks for. The first argument is the compositor itself.
pub fn parse_arguments(raw_args: &clap_lex::RawArgs) -> (invocation: Invocation)
    ensures
        invocation == invocation_from(arguments(*raw_args), 1, true),
{
    let mut cursor: clap_lex::ArgCursor = raw_args.cursor();
    let program: Option<Option<String>> = next_argument(raw_args, &mut cursor);
    if program.is_none() {
        return Invocation::Run { with_xwayland: true, kiosk_command: None };
    }
    let mut index: usize = 1;
    let mut with_xwayland: bool = true;
    loop
        invariant
            position(cursor) == index,
            1 <= index <= arguments(*raw_args).len(),
            invocation_from(arguments(*raw_args), 1, true) == invocation_from(
                arguments(*raw_args),
                index as int,
                with_xwayland,
            ),
        decreases arguments(*raw_args).len() - index,
    {
        let argument: Option<String> = match next_argument(raw_args, &mut cursor) {
            Some(argument) => argument,
            None => {
                return Invocation::Run { with_xwayland, kiosk_command: None };
            },
        };
        let text: Option<&str> = match &argument {
            Some(text) => Some(text.as_str()),
            None => None,
        };
        match argument_kind(text) {
            ArgumentKind::Help => {
                return Invocation::ShowHelp;
            },
            ArgumentKind::NoXwayland => {
                with_xwayland = false;
            },
            ArgumentKind::Version => {
                return Invocation::ShowVersion;
            },
            ArgumentKind::Program => {
                return Invocation::Run { with_xwayland, kiosk_command: Some(index) };
            },
        }
        index = index + 1;
    }
}

/// The version, as it is printed.
pub fn version_text(version: &str, git_rev: &str) -> (text: String)
    ensures
        text@ == "cosmic-comp "@ + version@ + " (git commit "@ + git_rev@ + ")"@,
{
    let mut text: String = String::from_str("cosmic-comp ");
    text.append(version);
    text.append(" (git commit ");
    text.append(git_rev);
    text.append(")");
    text
}

/// The help, as it is printed.
pub fn help_text(version: &str, git_rev: &str) -> (text: String)
    ensures
        text@ == "cosmic-comp "@ + version@ + " (git commit "@ + git_rev@ + ")"@
            + "\nSystem76 <info@system76.com>\n\nDesigned for the COSMIC™ desktop environment, cosmic-comp is a Wayland Compositor.\n\nProject home page: https://github.com/pop-os/cosmic-comp\n\nOptions:\n  -h, --help          Show this message\n  --no-xwayland       Run without Xwayland\n  -v, --version       Show the version of cosmic-comp"@,
{
    let mut text: String = version_text(version, git_rev);
    text.append(
        "\nSystem76 <info@system76.com>\n\nDesigned for the COSMIC™ desktop environment, cosmic-comp is a Wayland Compositor.\n\nProject home page: https://github.com/pop-os/cosmic-comp\n\nOptions:\n  -h, --help          Show this message\n  --no-xwayland       Run without Xwayland\n  -v, --version       Show the version of cosmic-comp",
    );
    text
}

/// What a failed start of the backend comes to.
#[derive(Debug, Clone, Copy, PartialEq, Eq, Structural)]
pub enum BackendFailure {
    /// The error ends the process.
    ReturnError,
    /// The session manager is answered and the process ends successfully, so that
    /// the session ends instead of being restarted. Where the session manager
    /// waits on a socket, it is given this many milliseconds to get ready.
    SafeExit { grace: Option<u64> },
}

/// What a failed start of the backend comes to: where HDR is required, the
/// session returns to the display manager.
pub fn backend_failure(require_active: bool, has_session_socket: bool, safe_exit_grace: u64) -> (
    failure: BackendFailure)
    ensures
        failure == if !require_active {
            BackendFailure::ReturnError
        } else if has_session_socket {
            BackendFailure::SafeExit { grace: Some(safe_exit_grace) }
        } else {
            BackendFailure::SafeExit { grace: None }
        },
{
    if !require_active {
        BackendFailure::ReturnError
    } else if has_session_socket {
        BackendFailure::SafeExit { grace: Some(safe_exit_grace) }
    } else {
        BackendFailure::SafeExit { grace: None }
    }
}

/// How long to go on handling events before a safe exit; `None` to exit now.
/// Times are in nanoseconds.
pub fn grace_remaining(should_stop: bool, now: u64, deadline: u64) -> (remaining: Option<u64>)
    ensures
        remaining == if should_stop || now > deadline {
            None
        } else {
            Some((deadline - now) as u64)
        },
{
    if should_stop || now > deadline {
        None
    } else {
        Some(deadline - now)
    }
}

/// What became of the kiosk program.
#[derive(Debug, Clone, Copy, PartialEq, Eq, Structural)]
pub enum ChildStatus {
    Running,
    /// It exited with this code, or was killed by a signal.
    Exited(Option<i32>),
    /// It could not be waited for.
    Lost,
}

/// The code to exit with, once the kiosk program has ended.
pub fn kiosk_exit_code(status: ChildStatus) -> (code: Option<i32>)
    ensures
        code == match status {
            ChildStatus::Running => None,
            ChildStatus::Exited(Some(code)) => Some(code),
            ChildStatus::Exited(None) => Some(1i32),
            ChildStatus::Lost => Some(1i32),
        },
{
    match status {
        ChildStatus::Running => None,
        ChildStatus::Exited(Some(code)) => Some(code),
        ChildStatus::Exited(None) => Some(1),
        ChildStatus::Lost => Some(1),
    }
}

/// A thread that was asked to stop, and whether it has.
#[derive(Debug, Clone, Copy, PartialEq, Eq, Structural)]
pub struct StoppingThread {
    pub id: u64,
    pub finished: bool,
}

/// Takes the threads that have finished out of `threads`, to be joined.
pub fn reap_finished(threads: &mut Vec<StoppingThread>) -> (joined: Vec<StoppingThread>)
    ensures
        joined@.to_multiset().add(final(threads)@.to_multiset()) == old(threads)@.to_multiset(),
        forall|i: int| 0 <= i < joined.len() ==> (#[trigger] joined[i]).finished,
        forall|i: int|
            0 <= i < final(threads)@.len() ==> !(#[trigger] final(threads)@[i]).finished,
{
    broadcast use vstd::seq_lib::group_to_multiset_ensures;
    broadcast use vstd::multiset::group_multiset_axioms;

    let mut joined: Vec<StoppingThread> = Vec::new();
    let mut index: usize = 0;
    assert(joined@.to_multiset().add(threads@.to_multiset()) =~= old(threads)@.to_multiset());
    while index < threads.len()
        invariant
            index <= threads.len(),
            joined@.to_multiset().add(threads@.to_multiset()) == old(threads)@.to_multiset(),
            forall|i: int| 0 <= i < joined.len() ==> (#[trigger] joined[i]).finished,
            forall|i: int| 0 <= i < index ==> !(#[trigger] threads@[i]).finished,
        decreases threads.len() - index,
    {
        if threads[index].finished {
            let ghost before = threads@;
            let ghost joined_before = joined@;
            let thread: StoppingThread = threads.swap_remove(index);
            joined.push(thread);
            proof {
                lemma_swap_remove(before, index as int);
                vstd::seq_lib::to_multiset_build(joined_before, thread);
                assert(joined@.to_multiset() =~= joined_before.to_multiset().insert(thread));
                assert(joined@.to_multiset().add(threads@.to_multiset()) =~= joined_before
                    .to_multiset().add(before.to_multiset()));
            }
        } else {
            index = index + 1;
        }
    }
    joined
}

proof fn lemma_swap_remove(threads: Seq<StoppingThread>, i: int)
    requires
        0 <= i < threads.len(),
    ensures
        threads.update(i, threads.last()).drop_last().to_multiset().insert(threads[i])
            == threads.to_multiset(),
{
    broadcast use vstd::seq_lib::group_to_multiset_ensures;
    broadcast use vstd::multiset::group_multiset_axioms;

    let kept = threads.update(i, threads.last()).drop_last();
    if i == threads.len() - 1 {
        assert(kept =~= threads.drop_last());
        assert(threads =~= kept.push(threads[i]));
        assert(kept.push(threads[i]).to_multiset() =~= kept.to_multiset().insert(threads[i]));
    } else {
        let all = kept.push(threads[i]);
        assert(all =~= threads.update(i, threads.last()).update(threads.len() - 1, threads[i]));
        let moved = threads.update(i, threads.last());
        assert(moved.to_multiset() =~= threads.to_multiset().insert(threads.last()).remove(
            threads[i],
        ));
        assert(all.to_multiset() =~= moved.to_multiset().insert(threads[i]).remove(
            moved[threads.len() - 1],
        ));
        assert(all.to_multiset() =~= threads.to_multiset());
        assert(all.to_multiset() =~= kept.to_multiset().insert(threads[i]));
    }
}

/// Whether to go on waiting for threads to stop. All threads share one deadline;
/// those that miss it are left behind once their device is paused. Times are in
/// nanoseconds.
pub fn keeps_waiting(unfinished: usize, now: u64, deadline: u64) -> (waits: bool)
    ensures
        waits == (unfinished > 0 && now < deadline),
{
    unfinished > 0 && now < deadline
}

/// Least time between two refreshes, in nanoseconds.
pub const REFRESH_INTERVAL: u64 = 150_000_000;

/// When the compositor's state was last refreshed.
#[derive(Debug, Clone, Copy, PartialEq, Eq, Structural)]
pub enum LastRefresh {
    /// Not lately.
    Never,
    /// At this time, in nanoseconds.
    At(u64),
    /// A timer will allow the next one.
    Scheduled(u64),
}

/// What a chance to refresh comes to.
#[derive(Debug, Clone, Copy, PartialEq, Eq, Structural)]
pub enum RefreshStep {
    /// A refresh is scheduled already.
    Skip,
    /// Register a timer that allows the next refresh.
    Schedule,
    /// Refresh now.
    Refresh,
}

impl LastRefresh {
    /// Decides whether to refresh now: not while a timer is pending, and not twice
    /// within the interval.
    pub fn step(&self, now: u64) -> (step: RefreshStep)
        ensures
            step == match *self {
                LastRefresh::Scheduled(_) => RefreshStep::Skip,
                LastRefresh::At(instant) => if now < instant + REFRESH_INTERVAL {
                    RefreshStep::Schedule
                } else {
                    RefreshStep::Refresh
                },
                LastRefresh::Never => RefreshStep::Refresh,
            },
    {
        match *self {
            LastRefresh::Scheduled(_) => RefreshStep::Skip,
            LastRefresh::At(instant) => if now.saturating_sub(instant) < REFRESH_INTERVAL {
                RefreshStep::Schedule
            } else {
                RefreshStep::Refresh
            },
            LastRefresh::Never => RefreshStep::Refresh,
        }
    }

    /// Records the timer that was registered. Returns whether to refresh now after
    /// all, because there is none.
    pub fn scheduled(&mut self, token: Option<u64>) -> (refresh: bool)
        ensures
            refresh == token is None,
            *final(self) == match token {
                Some(token) => LastRefresh::Scheduled(token),
                None => *old(self),
            },
    {
        match token {
            Some(token) => {
                *self = LastRefresh::Scheduled(token);
                false
            },
            None => true,
        }
    }

    /// Records that the timer fired.
    pub fn timer_fired(&mut self)
        ensures
            *final(self) == LastRefresh::Never,
    {
        *self = LastRefresh::Never;
    }

    /// Records a refresh.
    pub fn refreshed(&mut self, now: u64)
        ensures
            *final(self) == LastRefresh::At(now),
    {
        *self = LastRefresh::At(now);
    }
}

/// Each argument is what the help says: three words for the version, two for help, one
/// to go without Xwayland, and anything else a program.
pub proof fn lemma_arguments_are_what_the_help_says(
    text: &str,
    kind: ArgumentKind,
    unreadable: ArgumentKind,
)
    requires
        call_ensures(argument_kind, (Some(text),), kind),
        call_ensures(argument_kind, (None::<&str>,), unreadable),
    ensures
        kind is Help <==> text@ == "--help"@ || text@ == "-h"@,
        kind is NoXwayland <==> text@ == "--no-xwayland"@,
        kind is Version <==> text@ == "--version"@ || text@ == "-v"@ || text@ == "-V"@,
        unreadable is Program,
{
    reveal_strlit("--help");
    reveal_strlit("-h");
    reveal_strlit("--no-xwayland");
    reveal_strlit("--version");
    reveal_strlit("-v");
    reveal_strlit("-V");
    assert("--help"@.len() == 6 && "-h"@.len() == 2 && "--no-xwayland"@.len() == 13);
    assert("--version"@.len() == 9 && "-v"@.len() == 2 && "-V"@.len() == 2);
    assert("-h"@[1] == 'h' && "-v"@[1] == 'v' && "-V"@[1] == 'V');
}

/// A command line is read from its second argument on. It may ask to go without
/// Xwayland any number of times; the first other argument decides: it asks for help or
/// the version, or is the program to run. Without one a plain session is run.
pub proof fn lemma_first_other_argument_decides(
    raw_args: &clap_lex::RawArgs,
    invocation: Invocation,
    i: int,
)
    requires
        call_ensures(parse_arguments, (raw_args,), invocation),
        1 <= i <= usize::MAX,
        i <= arguments(*raw_args).len() || (i == 1 && arguments(*raw_args).len() == 0),
        forall|j: int|
            1 <= j < i ==> #[trigger] arguments(*raw_args)[j] == Some("--no-xwayland"@),
    ensures
        i >= arguments(*raw_args).len() ==> invocation == (Invocation::Run {
            with_xwayland: i == 1,
            kiosk_command: None,
        }),
        i < arguments(*raw_args).len() ==> {
            let argument = arguments(*raw_args)[i];
            &&& argument == Some("--help"@) || argument == Some("-h"@) ==> invocation is ShowHelp
            &&& argument == Some("--version"@) || argument == Some("-v"@) || argument == Some("-V"@)
                ==> invocation is ShowVersion
            &&& argument != Some("--help"@) && argument != Some("-h"@) && argument != Some(
                "--version"@,
            ) && argument != Some("-v"@) && argument != Some("-V"@) && argument != Some(
                "--no-xwayland"@,
            ) ==> invocation == (Invocation::Run {
                with_xwayland: i == 1,
                kiosk_command: Some(i as usize),
            })
        },
{
    reveal_strlit("--help");
    reveal_strlit("-h");
    reveal_strlit("--no-xwayland");
    reveal_strlit("--version");
    reveal_strlit("-v");
    reveal_strlit("-V");
    assert("--help"@.len() == 6 && "-h"@.len() == 2 && "--no-xwayland"@.len() == 13);
    assert("--version"@.len() == 9 && "-v"@.len() == 2 && "-V"@.len() == 2);
    assert("-h"@[1] == 'h' && "-v"@[1] == 'v' && "-V"@[1] == 'V');
    lemma_skipped_arguments(arguments(*raw_args), 1, i, true);
}

proof fn lemma_skipped_arguments(
    args: Seq<Option<Seq<char>>>,
    from: int,
    i: int,
    with_xwayland: bool,
)
    requires
        1 <= from <= i,
        i <= args.len() || from == i,
        forall|j: int| from <= j < i ==> #[trigger] args[j] == Some("--no-xwayland"@),
    ensures
        invocation_from(args, from, with_xwayland) == invocation_from(
            args,
            i,
            with_xwayland && from == i,
        ),
    decreases i - from,
{
    if from < i {
        reveal_strlit("--help");
        reveal_strlit("-h");
        reveal_strlit("--no-xwayland");
        assert("--help"@.len() == 6 && "-h"@.len() == 2 && "--no-xwayland"@.len() == 13);
        assert(args[from] == Some("--no-xwayland"@));
        lemma_skipped_arguments(args, from + 1, i, false);
    }
}

/// The help begins with the version, and both name the version and the revision.
pub proof fn lemma_help_begins_with_the_version(
    version: &str,
    git_rev: &str,
    text: String,
    help: String,
)
    requires
        call_ensures(version_text, (version, git_rev), text),
        call_ensures(help_text, (version, git_rev), help),
    ensures
        text@.len() <= help@.len(),
        help@.take(text@.len() as int) == text@,
        text@ == "cosmic-comp "@ + version@ + " (git commit "@ + git_rev@ + ")"@,
{
    assert(help@.take(text@.len() as int) =~= text@);
}

/// A failed start ends the process with its error, unless HDR is required: then the
/// session ends safely, and one that a manager waits for gets its grace.
pub proof fn lemma_failed_start(
    require_active: bool,
    has_socket: bool,
    grace: u64,
    failure: BackendFailure,
)
    requires
        call_ensures(backend_failure, (require_active, has_socket, grace), failure),
    ensures
        failure is ReturnError <==> !require_active,
        failure matches BackendFailure::SafeExit { grace: given } ==> (given is Some <==> has_socket)
            && (given matches Some(time) ==> time == grace),
{
}

/// Events are handled until the deadline, and no longer than until a stop is asked for.
pub proof fn lemma_grace_ends_at_the_deadline(
    should_stop: bool,
    now: u64,
    deadline: u64,
    remaining: Option<u64>,
)
    requires
        call_ensures(grace_remaining, (should_stop, now, deadline), remaining),
    ensures
        should_stop ==> remaining is None,
        now > deadline ==> remaining is None,
        !should_stop && now <= deadline ==> (remaining matches Some(time) && now + time == deadline),
{
}

/// A kiosk session ends with its program: with the program's own code where it has one,
/// and else as failed.
pub proof fn lemma_kiosk_ends_with_its_program(status: ChildStatus, code: Option<i32>)
    requires
        call_ensures(kiosk_exit_code, (status,), code),
    ensures
        code is None <==> status is Running,
        status matches ChildStatus::Exited(Some(own)) ==> code == Some(own),
        status is Lost || status == ChildStatus::Exited(None) ==> (code matches Some(own) && own
            != 0),
{
}

/// Threads are waited for while some have not stopped and the deadline has not come.
pub proof fn lemma_waiting_for_threads(unfinished: usize, now: u64, deadline: u64, waits: bool)
    requires
        call_ensures(keeps_waiting, (unfinished, now, deadline), waits),
    ensures
        unfinished == 0 ==> !waits,
        now >= deadline ==> !waits,
        unfinished > 0 && now < deadline ==> waits,
{
}

/// Exactly the threads that have finished are taken out, and none is lost.
pub proof fn lemma_finished_threads_are_joined(
    threads: &mut Vec<StoppingThread>,
    joined: Vec<StoppingThread>,
    thread: StoppingThread,
)
    requires
        call_ensures(reap_finished, (threads,), joined),
    ensures
        thread.finished ==> joined@.to_multiset().count(thread) == old(threads)@.to_multiset().count(thread),
        !thread.finished ==> final(threads)@.to_multiset().count(thread) == old(threads)@.to_multiset().count(thread),
{
    broadcast use vstd::seq_lib::group_to_multiset_ensures;
    broadcast use vstd::multiset::group_multiset_axioms;

    let left = final(threads)@;
    if thread.finished {
        if left.to_multiset().count(thread) > 0 {
            assert(left.contains(thread));
            let i = choose|i: int| 0 <= i < left.len() && left[i] == thread;
            assert(!left[i].finished);
        }
    } else {
        if joined@.to_multiset().count(thread) > 0 {
            assert(joined@.contains(thread));
            let i = choose|i: int| 0 <= i < joined@.len() && joined@[i] == thread;
            assert(joined[i].finished);
        }
    }
    assert(joined@.to_multiset().add(left.to_multiset()).count(thread)
        == joined@.to_multiset().count(thread) + left.to_multiset().count(thread));
}

/// Between two refreshes pass 150 milliseconds: sooner, the next one is scheduled, once,
/// and the timer allows it.
pub proof fn lemma_refreshes_are_spaced(
    last: LastRefresh,
    now: u64,
    step: RefreshStep,
    state: &mut LastRefresh,
    token: Option<u64>,
    at_once: bool,
    fired: &mut LastRefresh,
    after_timer: RefreshStep,
    done: &mut LastRefresh,
    after_refresh: RefreshStep,
    later: u64,
)
    requires
        call_ensures(LastRefresh::step, (&last, now), step),
        call_ensures(LastRefresh::scheduled, (state, token), at_once),
        call_ensures(LastRefresh::timer_fired, (fired,), ()),
        call_ensures(LastRefresh::step, (&*final(fired), later), after_timer),
        call_ensures(LastRefresh::refreshed, (done, now), ()),
        call_ensures(LastRefresh::step, (&*final(done), later), after_refresh),
        now <= later,
    ensures
        step is Skip <==> last is Scheduled,
        last is Never ==> step is Refresh,
        last matches LastRefresh::At(then) ==> (then <= now ==> (step is Refresh <==> now - then
            >= 150_000_000)),
        token matches Some(own) ==> !at_once && *final(state) == LastRefresh::Scheduled(own),
        token is None ==> at_once && *final(state) == *old(state),
        after_timer is Refresh,
        after_refresh is Refresh <==> later - now >= 150_000_000,
        after_refresh is Schedule <==> later - now < 150_000_000,
{
}

} // verus!
