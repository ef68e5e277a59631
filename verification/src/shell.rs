//! Scripts: which program runs them, with what, and what becomes of their output.

use crate::error::{AutomationError, ErrorModel};
use crate::model::{AutomationEvent, ResultModel, ShellKind, StepResult, OUTPUT_LIMIT};
use crate::template;
use crate::text;
use crate::text_map::TextMap;
use vstd::prelude::*;
use vstd::utf8::{decode_utf8, valid_utf8};

verus! {

pub const MIN_TIMEOUT_SECONDS: u32 = 1;

pub const MAX_TIMEOUT_SECONDS: u32 = 3600;

/// The kind of system that scripts run on.
#[derive(Debug, Clone, Copy, PartialEq, Eq, Structural)]
pub enum Platform {
    Windows,
    MacOs,
    Other,
}

/// The script is read by PowerShell.
pub open spec fn reads_powershell(shell: ShellKind, platform: Platform) -> bool {
    shell == ShellKind::Powershell || shell == ShellKind::System && platform == Platform::Windows
}

/// The program that runs the script; `user_shell` is the shell that the user has chosen.
pub open spec fn program_of(
    shell: ShellKind,
    platform: Platform,
    user_shell: Option<Seq<char>>,
) -> Seq<char> {
    match shell {
        ShellKind::Powershell => if platform == Platform::Windows {
            "powershell.exe"@
        } else {
            "pwsh"@
        },
        ShellKind::System => match platform {
            Platform::Windows => "powershell.exe"@,
            Platform::MacOs => match user_shell {
                Some(program) => program,
                None => "/bin/zsh"@,
            },
            Platform::Other => "/bin/sh"@,
        },
        ShellKind::Sh => "/bin/sh"@,
        ShellKind::Bash => "/bin/bash"@,
        ShellKind::Zsh => "/bin/zsh"@,
    }
}

/// The arguments of the program: the script is the last of them.
pub open spec fn arguments_of(powershell: bool, script: Seq<char>) -> Seq<Seq<char>> {
    if powershell {
        seq!["-NoLogo"@, "-NoProfile"@, "-NonInteractive"@, "-Command"@, script]
    } else {
        seq!["-c"@, script]
    }
}

/// The seconds after which a script is stopped.
pub open spec fn timeout_of(seconds: nat) -> nat {
    if seconds < MIN_TIMEOUT_SECONDS {
        MIN_TIMEOUT_SECONDS as nat
    } else if seconds > MAX_TIMEOUT_SECONDS {
        MAX_TIMEOUT_SECONDS as nat
    } else {
        seconds
    }
}

/// The directory that a script runs in; `None` for that of the process.
pub open spec fn directory_of(wanted: Option<Seq<char>>) -> Option<Seq<char>> {
    match wanted {
        Some(directory) => if directory.len() > 0 {
            Some(directory)
        } else {
            None
        },
        None => None,
    }
}

/// The code that is handed to the program: without an event the script as it stands, else with
/// references in place of variables.
pub open spec fn code_of(
    script: Seq<char>,
    known: Option<Set<Seq<char>>>,
    powershell: bool,
) -> Result<Seq<char>, ErrorModel> {
    match known {
        Some(variables) => template::prepared(script, variables, powershell),
        None => Ok(script),
    }
}

/// The variables that an event provides.
pub open spec fn known_of(event: Option<&AutomationEvent>) -> Option<Set<Seq<char>>> {
    match event {
        Some(e) => Some(e@.variables.dom()),
        None => None,
    }
}

/// A script that is ready to be run.
#[derive(Debug)]
pub struct ShellPlan {
    pub program: String,
    pub arguments: Vec<String>,
    pub environment: TextMap,
    pub working_directory: Option<String>,
    pub timeout_seconds: u64,
}

fn choose_program(shell: ShellKind, platform: Platform, user_shell: Option<&str>) -> (r: String)
    ensures
        r@ == program_of(
            shell,
            platform,
            match user_shell {
                Some(program) => Some(program@),
                None => None,
            },
        ),
{
    match shell {
        ShellKind::Powershell => if platform == Platform::Windows {
            "powershell.exe".to_owned()
        } else {
            "pwsh".to_owned()
        },
        ShellKind::System => match platform {
            Platform::Windows => "powershell.exe".to_owned(),
            Platform::MacOs => match user_shell {
                Some(program) => program.to_owned(),
                None => "/bin/zsh".to_owned(),
            },
            Platform::Other => "/bin/sh".to_owned(),
        },
        ShellKind::Sh => "/bin/sh".to_owned(),
        ShellKind::Bash => "/bin/bash".to_owned(),
        ShellKind::Zsh => "/bin/zsh".to_owned(),
    }
}

fn build_arguments(powershell: bool, script: String) -> (r: Vec<String>)
    ensures
        text::views(r@) == arguments_of(powershell, script@),
{
    let mut arguments: Vec<String> = Vec::new();
    if powershell {
        arguments.push("-NoLogo".to_owned());
        arguments.push("-NoProfile".to_owned());
        arguments.push("-NonInteractive".to_owned());
        arguments.push("-Command".to_owned());
    } else {
        arguments.push("-c".to_owned());
    }
    let ghost code = script@;
    arguments.push(script);
    assert(text::views(arguments@) =~= arguments_of(powershell, code));
    arguments
}

/// Makes a script ready to be run. With an event its variables are filled in, by way of the
/// environment; without one the script is literal code.
pub fn plan_shell(
    shell: ShellKind,
    script: &str,
    working_directory: Option<&str>,
    timeout_seconds: u32,
    event: Option<&AutomationEvent>,
    platform: Platform,
    user_shell: Option<&str>,
) -> (r: Result<ShellPlan, AutomationError>)
    ensures
        ({
            let powershell = reads_powershell(shell, platform);
            let code = code_of(script@, known_of(event), powershell);
            match r {
                Ok(plan) => {
                    &&& code is Ok
                    &&& text::views(plan.arguments@) == arguments_of(powershell, code->Ok_0)
                    &&& plan.program@ == program_of(
                        shell,
                        platform,
                        match user_shell {
                            Some(program) => Some(program@),
                            None => None,
                        },
                    )
                    &&& match event {
                        Some(e) => template::binds(
                            plan.environment@,
                            template::parse(script@).tokens,
                            e@.variables,
                        ),
                        None => plan.environment@ == Map::<Seq<char>, Seq<char>>::empty(),
                    }
                    &&& text::opt_view(plan.working_directory) == (match working_directory {
                        Some(directory) => if directory@.len() > 0 {
                            Some(directory@)
                        } else {
                            None
                        },
                        None => None,
                    })
                    &&& text::opt_view(plan.working_directory) == directory_of(
                        match working_directory {
                            Some(directory) => Some(directory@),
                            None => None,
                        },
                    )
                    &&& plan.timeout_seconds == timeout_of(timeout_seconds as nat)
                },
                Err(e) => code == Err::<Seq<char>, ErrorModel>(e@),
            }
        }),
{
    let powershell = shell == ShellKind::Powershell || (shell == ShellKind::System && platform
        == Platform::Windows);
    let (code, environment) = match event {
        Some(event) => match template::prepare_script(script, event, powershell) {
            Ok(prepared) => prepared,
            Err(e) => {
                return Err(e);
            },
        },
        None => (script.to_owned(), TextMap::new()),
    };
    let directory: Option<String> = match working_directory {
        Some(directory) => if directory.is_empty() {
            None
        } else {
            Some(directory.to_owned())
        },
        None => None,
    };
    let seconds: u32 = if timeout_seconds < MIN_TIMEOUT_SECONDS {
        MIN_TIMEOUT_SECONDS
    } else if timeout_seconds > MAX_TIMEOUT_SECONDS {
        MAX_TIMEOUT_SECONDS
    } else {
        timeout_seconds
    };
    Ok(
        ShellPlan {
            program: choose_program(shell, platform, user_shell),
            arguments: build_arguments(powershell, code),
            environment,
            working_directory: directory,
            timeout_seconds: seconds as u64,
        },
    )
}

/// What is kept once `chunk` follows `kept`: bytes are added up to the limit.
pub open spec fn kept_with(kept: Seq<u8>, chunk: Seq<u8>) -> Seq<u8> {
    let room = if kept.len() < OUTPUT_LIMIT {
        OUTPUT_LIMIT - kept.len()
    } else {
        0
    };
    kept + chunk.take(
        if chunk.len() < room {
            chunk.len() as int
        } else {
            room
        },
    )
}

/// Adds a chunk of output to what is kept of it.
pub fn keep_output(kept: &mut Vec<u8>, chunk: &[u8])
    ensures
        final(kept)@ == kept_with(old(kept)@, chunk@),
        old(kept)@.len() <= OUTPUT_LIMIT ==> final(kept)@.len() <= OUTPUT_LIMIT,
{
    let ghost before = kept@;
    let room: usize = if kept.len() < OUTPUT_LIMIT {
        OUTPUT_LIMIT - kept.len()
    } else {
        0
    };
    let take: usize = if chunk.len() < room {
        chunk.len()
    } else {
        room
    };
    let mut i: usize = 0;
    while i < take
        invariant
            i <= take <= chunk@.len(),
            kept@ == before + chunk@.take(i as int),
        decreases take - i,
    {
        kept.push(chunk[i]);
        assert(kept@ =~= before + chunk@.take(i + 1));
        i = i + 1;
    }
}

/// Bytes as text, with a replacement character for what is not UTF-8.
pub uninterp spec fn lossy_text(bytes: Seq<u8>) -> Seq<char>;

/// Calls `String::from_utf8_lossy`. Its result is named [`lossy_text`]; bytes that are UTF-8 are
/// decoded as they are.
#[verifier::external_body]
fn decode_lossy(bytes: &[u8]) -> (r: String)
    ensures
        r@ == lossy_text(bytes@),
        valid_utf8(bytes@) ==> r@ == decode_utf8(bytes@),
{
    String::from_utf8_lossy(bytes).into_owned()
}

/// How a script ended.
#[derive(Debug)]
pub enum ShellEnd {
    /// It ended by itself, with an exit code unless a signal ended it.
    Exited { code: Option<i32>, success: bool },
    /// Its end could not be awaited.
    Lost(String),
    /// The run was canceled.
    Canceled,
    /// It took too long.
    TimedOut,
}

pub enum EndModel {
    Exited { code: Option<i32>, success: bool },
    Lost(Seq<char>),
    Canceled,
    TimedOut,
}

impl View for ShellEnd {
    type V = EndModel;

    open spec fn view(&self) -> EndModel {
        match *self {
            ShellEnd::Exited { code, success } => EndModel::Exited { code, success },
            ShellEnd::Lost(message) => EndModel::Lost(message@),
            ShellEnd::Canceled => EndModel::Canceled,
            ShellEnd::TimedOut => EndModel::TimedOut,
        }
    }
}

/// The error of a script that ended in the given way.
pub open spec fn end_error(end: EndModel) -> Option<Seq<char>> {
    match end {
        EndModel::Exited { code, success } => if success {
            None
        } else {
            Some(
                "script failed with exit code "@ + match code {
                    Some(number) => text::signed_decimal(number as int),
                    None => "terminated by signal"@,
                },
            )
        },
        EndModel::Lost(message) => Some(message),
        EndModel::Canceled => Some("run canceled"@),
        EndModel::TimedOut => Some("script timed out"@),
    }
}

/// The exit code of a script that ended in the given way.
pub open spec fn end_code(end: EndModel) -> Option<i32> {
    match end {
        EndModel::Exited { code, .. } => code,
        _ => None,
    }
}

/// Output that could not be read to its end.
pub open spec fn lost_output() -> Seq<char> {
    "[output capture ended]"@
}

/// The result of a script, given the texts of its output.
pub open spec fn shell_result(end: EndModel, stdout: Seq<char>, stderr: Seq<char>) -> ResultModel {
    (ResultModel { exit_code: end_code(end), stdout, stderr, error: end_error(end) }).cut()
}

/// The text of output; `None` where it could not be read to its end.
pub open spec fn output_text(output: Option<Seq<u8>>) -> Seq<char> {
    match output {
        Some(bytes) => lossy_text(bytes),
        None => lost_output(),
    }
}

/// The result of a script, given the texts of its output.
pub fn conclude_shell(end: ShellEnd, stdout: String, stderr: String) -> (r: StepResult)
    ensures
        r@ == shell_result(end@, stdout@, stderr@),
        r@.is_bounded(),
{
    let (exit_code, error): (Option<i32>, Option<String>) = match end {
        ShellEnd::Exited { code, success } => {
            let error = if success {
                None
            } else {
                let mut message = "script failed with exit code ".to_owned();
                match code {
                    Some(number) => {
                        message.append(text::signed_decimal_text(number as i64).as_str());
                    },
                    None => {
                        message.append("terminated by signal");
                    },
                }
                Some(message)
            };
            (code, error)
        },
        ShellEnd::Lost(message) => (None, Some(message)),
        ShellEnd::Canceled => (None, Some("run canceled".to_owned())),
        ShellEnd::TimedOut => (None, Some("script timed out".to_owned())),
    };
    (StepResult { exit_code, stdout, stderr, error }).bounded()
}

/// The result of a script, given the bytes of its output as far as they were kept.
pub fn finish_shell(end: ShellEnd, stdout: Option<Vec<u8>>, stderr: Option<Vec<u8>>) -> (r:
    StepResult)
    ensures
        r@ == shell_result(
            end@,
            output_text(
                match stdout {
                    Some(bytes) => Some(bytes@),
                    None => None,
                },
            ),
            output_text(
                match stderr {
                    Some(bytes) => Some(bytes@),
                    None => None,
                },
            ),
        ),
        r@.is_bounded(),
{
    let out = match stdout {
        Some(bytes) => decode_lossy(bytes.as_slice()),
        None => "[output capture ended]".to_owned(),
    };
    let err = match stderr {
        Some(bytes) => decode_lossy(bytes.as_slice()),
        None => "[output capture ended]".to_owned(),
    };
    conclude_shell(end, out, err)
}

/// The result of a script that could not be run.
pub fn fail_shell(message: String) -> (r: StepResult)
    ensures
        r@ == ResultModel::failure(message@).cut(),
        r@.is_bounded(),
{
    StepResult::failure(message).bounded()
}

/// Output that comes in chunks is kept as if it came in one piece: its beginning, up to the limit.
pub proof fn law_output_is_kept_from_the_start(first: Seq<u8>, second: Seq<u8>)
    ensures
        kept_with(kept_with(Seq::empty(), first), second) == kept_with(Seq::empty(), first + second),
        kept_with(Seq::empty(), first + second).len() <= OUTPUT_LIMIT,
{
    assert(kept_with(kept_with(Seq::empty(), first), second) =~= kept_with(
        Seq::empty(),
        first + second,
    ));
}

/// What an event tells never reaches the command line: all events for which a script can be
/// prepared run the same program with the same arguments.
pub proof fn law_command_line_holds_no_event_data(
    shell: ShellKind,
    script: Seq<char>,
    platform: Platform,
    values: Map<Seq<char>, Seq<char>>,
    others: Map<Seq<char>, Seq<char>>,
)
    requires
        code_of(script, Some(values.dom()), reads_powershell(shell, platform)) is Ok,
        code_of(script, Some(others.dom()), reads_powershell(shell, platform)) is Ok,
    ensures
        code_of(script, Some(values.dom()), reads_powershell(shell, platform)) == code_of(
            script,
            Some(others.dom()),
            reads_powershell(shell, platform),
        ),
{
}

/// However long a script asks to run, it is stopped after an hour at the latest, and given a second
/// at least.
pub proof fn law_timeouts_are_bounded(seconds: nat)
    ensures
        1 <= timeout_of(seconds) <= 3600,
        1 <= seconds <= 3600 ==> timeout_of(seconds) == seconds,
{
}

/// Literal scripts keep their braces.
pub proof fn law_literal_scripts_are_kept(script: Seq<char>, powershell: bool)
    ensures
        code_of(script, None, powershell) == Ok::<Seq<char>, ErrorModel>(script),
{
}

/// A script succeeds only where it ended by itself and says so.
pub proof fn law_only_success_has_no_error(end: EndModel, stdout: Seq<char>, stderr: Seq<char>)
    ensures
        shell_result(end, stdout, stderr).error is None <==> (end matches EndModel::Exited {
            success,
            ..
        } && success),
{
}

/// Which program runs a script: a named shell is the same on every system, PowerShell has its own
/// program on Windows, and the shell of the system is PowerShell on Windows, the user's own on macOS
/// and the plain one elsewhere.
pub proof fn law_programs(shell: ShellKind, platform: Platform, user_shell: Option<Seq<char>>)
    ensures
        ({
            let program = program_of(shell, platform, user_shell);
            let windows = platform == Platform::Windows;
            &&& shell == ShellKind::Sh ==> program == "/bin/sh"@
            &&& shell == ShellKind::Bash ==> program == "/bin/bash"@
            &&& shell == ShellKind::Zsh ==> program == "/bin/zsh"@
            &&& shell == ShellKind::Powershell && !windows ==> program == "pwsh"@
            &&& (shell == ShellKind::Powershell || shell == ShellKind::System) && windows
                ==> program == "powershell.exe"@
            &&& shell == ShellKind::System && platform == Platform::MacOs && user_shell is Some
                ==> program == user_shell->0
            &&& shell == ShellKind::System && platform == Platform::MacOs && user_shell is None
                ==> program == "/bin/zsh"@
            &&& shell == ShellKind::System && platform == Platform::Other ==> program == "/bin/sh"@
        }),
{
}

/// A script is read by PowerShell exactly where it asks for it, or asks for the shell of the system
/// on Windows.
pub proof fn law_powershell(shell: ShellKind, platform: Platform)
    ensures
        reads_powershell(ShellKind::Powershell, platform),
        reads_powershell(ShellKind::System, platform) <==> platform == Platform::Windows,
        shell != ShellKind::Powershell && shell != ShellKind::System ==> !reads_powershell(
            shell,
            platform,
        ),
{
}

/// The script is the last argument, behind the one that says that code follows; PowerShell is told
/// besides to show no banner, to read no profile and to ask nothing.
pub proof fn law_arguments(powershell: bool, script: Seq<char>)
    ensures
        ({
            let arguments = arguments_of(powershell, script);
            &&& arguments.last() == script
            &&& !powershell ==> arguments.len() == 2 && arguments[0] == "-c"@
            &&& powershell ==> arguments.len() == 5 && arguments[0] == "-NoLogo"@ && arguments[1]
                == "-NoProfile"@ && arguments[2] == "-NonInteractive"@ && arguments[3]
                == "-Command"@
        }),
{
}

/// With an event a script is prepared for the variables that the event tells.
pub proof fn law_scripts_with_an_event(
    script: Seq<char>,
    known: Set<Seq<char>>,
    powershell: bool,
    event: &AutomationEvent,
)
    ensures
        code_of(script, Some(known), powershell) == template::prepared(script, known, powershell),
        known_of(Some(event)) == Some(event@.variables.dom()),
        known_of(None) is None,
{
}

/// What is kept of output is its beginning: a chunk is added whole where it fits into 65536 bytes, and
/// as far as it fits otherwise.
pub proof fn law_kept_output(kept: Seq<u8>, chunk: Seq<u8>)
    ensures
        ({
            let after = kept_with(kept, chunk);
            &&& after == (kept + chunk).take(after.len() as int)
            &&& kept.len() + chunk.len() <= 65536 ==> after == kept + chunk
            &&& kept.len() <= 65536 && kept.len() + chunk.len() > 65536 ==> after.len() == 65536
            &&& kept.len() > 65536 ==> after == kept
        }),
{
    let after = kept_with(kept, chunk);
    if kept.len() > 65536 {
        assert(after =~= kept);
    }
    assert(after =~= (kept + chunk).take(after.len() as int));
    if kept.len() + chunk.len() <= 65536 {
        assert(after =~= kept + chunk);
    }
}

/// The result of a script holds its own output, each stream in its place and up to 65536 bytes, and its
/// exit code; where it did not end well it says why.
pub proof fn law_results_of_scripts(
    code: Option<i32>,
    success: bool,
    message: Seq<char>,
    stdout: Seq<char>,
    stderr: Seq<char>,
)
    ensures
        ({
            let r = shell_result(EndModel::Exited { code, success }, stdout, stderr);
            &&& r.exit_code == code
            &&& r.stdout == text::fitting(stdout, 65536)
            &&& r.stderr == text::fitting(stderr, 65536)
            &&& success ==> r.error is None
            &&& !success && code is Some ==> r.error == Some(
                text::fitting(
                    "script failed with exit code "@ + text::signed_decimal(code->0 as int),
                    65536,
                ),
            )
            &&& !success && code is None ==> r.error == Some(
                "script failed with exit code terminated by signal"@,
            )
        }),
        ({
            let r = shell_result(EndModel::Lost(message), stdout, stderr);
            r.exit_code is None && r.stdout == text::fitting(stdout, 65536) && r.stderr
                == text::fitting(stderr, 65536) && r.error == Some(text::fitting(message, 65536))
        }),
        ({
            let r = shell_result(EndModel::Canceled, stdout, stderr);
            r.exit_code is None && r.stdout == text::fitting(stdout, 65536) && r.stderr
                == text::fitting(stderr, 65536) && r.error == Some("run canceled"@)
        }),
        ({
            let r = shell_result(EndModel::TimedOut, stdout, stderr);
            r.exit_code is None && r.stdout == text::fitting(stdout, 65536) && r.stderr
                == text::fitting(stderr, 65536) && r.error == Some("script timed out"@)
        }),
        output_text(None) == "[output capture ended]"@,
        forall|bytes: Seq<u8>| #[trigger] output_text(Some(bytes)) == lossy_text(bytes),
{
    reveal_strlit("run canceled");
    reveal_strlit("script timed out");
    reveal_strlit("script failed with exit code ");
    reveal_strlit("terminated by signal");
    reveal_strlit("script failed with exit code terminated by signal");
    let signal = "script failed with exit code terminated by signal"@;
    assert("script failed with exit code "@ + "terminated by signal"@ =~= signal);
    text::lemma_byte_len_at_most(signal);
    text::law_fitting(signal, 65536);
    text::lemma_byte_len_at_most("run canceled"@);
    text::law_fitting("run canceled"@, 65536);
    text::lemma_byte_len_at_most("script timed out"@);
    text::law_fitting("script timed out"@, 65536);
}

/// A script runs in the directory that it asks for; one that asks for none, or for one without a name,
/// runs where the process is.
pub proof fn law_directories(directory: Seq<char>)
    ensures
        directory.len() > 0 ==> directory_of(Some(directory)) == Some(directory),
        directory.len() == 0 ==> directory_of(Some(directory)) is None,
        directory_of(None) is None,
{
}

} // verus!
