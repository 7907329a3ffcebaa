//! Starting the client.
//!
//! The client is described by a desktop file whose stem is the applet's name.
//! The first such file that says what to execute is the one it is started
//! from.

use vstd::prelude::*;

use crate::space::{SimpleWrapperSpace, SpaceView};

verus! {

/// How the client is started.
#[derive(Debug)]
pub struct ClientLaunch {
    /// the command line
    pub command: String,
    /// the name of the configuration that the client belongs to
    pub name: String,
    /// whether the client asks for the display of the host as well
    pub requests_host_wayland_display: bool,
}

/// The mathematical value of a launch.
pub struct ClientLaunchView {
    pub command: Seq<char>,
    pub name: Seq<char>,
    pub requests_host_wayland_display: bool,
}

impl View for ClientLaunch {
    type V = ClientLaunchView;

    open spec fn view(&self) -> ClientLaunchView {
        ClientLaunchView {
            command: self.command@,
            name: self.name@,
            requests_host_wayland_display: self.requests_host_wayland_display,
        }
    }
}

/// A desktop file, as far as it could be read.
#[derive(Debug)]
pub struct DesktopFile {
    /// the name of the file without its extension
    pub stem: Option<String>,
    /// what is in the file, or `None` where that could not be read
    pub text: Option<String>,
}

/// The mathematical value of a desktop file.
pub struct DesktopFileView {
    pub stem: Option<Seq<char>>,
    pub text: Option<Seq<char>>,
}

impl View for DesktopFile {
    type V = DesktopFileView;

    open spec fn view(&self) -> DesktopFileView {
        DesktopFileView { stem: text_of(self.stem), text: text_of(self.text) }
    }
}

/// The values of a list of desktop files.
pub open spec fn file_views(files: Seq<DesktopFile>) -> Seq<DesktopFileView> {
    files.map_values(|file: DesktopFile| file@)
}

/// Why a client was not started.
#[derive(Clone, Copy, Debug, PartialEq, Eq, Structural)]
pub enum SpawnError {
    /// the space has a client
    AlreadySpawned,
    /// a file that describes the client has a value without a key
    Malformed,
    /// no file says what to execute
    NotFound,
}

impl SpawnError {
    /// The error in words.
    pub fn message(&self) -> (text: &'static str)
        ensures
            text@ == (match *self {
                SpawnError::AlreadySpawned => "Clients have already been spawned!"@,
                SpawnError::Malformed => "Failed to decode desktop file..."@,
                SpawnError::NotFound => "Failed to spawn client..."@,
            }),
    {
        match self {
            SpawnError::AlreadySpawned => "Clients have already been spawned!",
            SpawnError::Malformed => "Failed to decode desktop file...",
            SpawnError::NotFound => "Failed to spawn client...",
        }
    }
}

/// The characters of a text, if there is one.
pub open spec fn text_of(text: Option<String>) -> Option<Seq<char>> {
    match text {
        Some(text) => Some(text@),
        None => None,
    }
}

/// The value of a launch, if there is one.
pub open spec fn launch_of(launch: Option<ClientLaunch>) -> Option<ClientLaunchView> {
    match launch {
        Some(launch) => Some(launch@),
        None => None,
    }
}

/// The character is white space.
pub open spec fn is_blank(c: char) -> bool {
    let n = c as u32;
    ||| 0x9 <= n <= 0xd
    ||| n == 0x20
    ||| n == 0x85
    ||| n == 0xa0
    ||| n == 0x1680
    ||| 0x2000 <= n <= 0x200a
    ||| n == 0x2028
    ||| n == 0x2029
    ||| n == 0x202f
    ||| n == 0x205f
    ||| n == 0x3000
}

/// Up to the given position, its line holds nothing but white space.
pub open spec fn line_blank(text: Seq<char>, n: int) -> bool
    decreases n,
{
    n <= 0 || text[n - 1] == '\n' || (is_blank(text[n - 1]) && line_blank(text, n - 1))
}

/// No line of the text has a value without a key: an equals sign never comes
/// first in its line.
pub open spec fn decodable(text: Seq<char>) -> bool {
    forall|i: int| 0 <= i < text.len() && #[trigger] text[i] == '=' ==> !line_blank(text, i)
}

/// The value that a desktop file of the given text has for a key of its main
/// group, if it has one.
pub uninterp spec fn desktop_value(text: Seq<char>, key: Seq<char>) -> Option<Seq<char>>;

/// The key of the command line.
pub const EXEC_KEY: &'static str = "Exec";

/// The key by which a client asks for the display of the host.
pub const HOST_DISPLAY_KEY: &'static str = "HostWaylandDisplay";

/// A client can be started from a file that says what to execute.
pub open spec fn launch_from(
    command: Option<Seq<char>>,
    host_display: Option<Seq<char>>,
    name: Seq<char>,
) -> Option<ClientLaunchView> {
    match command {
        Some(command) => Some(
            ClientLaunchView { command, name, requests_host_wayland_display: host_display is Some },
        ),
        None => None,
    }
}

/// How a client is started, under the given name, from a text that can be
/// decoded.
pub open spec fn launch_in(text: Seq<char>, name: Seq<char>) -> Option<ClientLaunchView> {
    launch_from(desktop_value(text, EXEC_KEY@), desktop_value(text, HOST_DISPLAY_KEY@), name)
}

impl DesktopFileView {
    /// The file was read, and describes the given applet.
    pub open spec fn describes(self, applet: Seq<char>) -> bool {
        self.stem == Some(applet) && self.text is Some
    }

    /// The search for the client ends at this file: it describes the client, and
    /// either it cannot be decoded or it says what to execute.
    pub open spec fn settles(self, applet: Seq<char>, name: Seq<char>) -> bool {
        self.describes(applet) && (!decodable(self.text->0) || launch_in(self.text->0, name) is Some)
    }

    /// What a search that ends at this file finds.
    pub open spec fn found(self, name: Seq<char>) -> Result<ClientLaunchView, SpawnError> {
        if !decodable(self.text->0) {
            Err(SpawnError::Malformed)
        } else {
            Ok(launch_in(self.text->0, name)->0)
        }
    }
}

/// What a search through the files, in order, finds.
pub open spec fn search(files: Seq<DesktopFileView>, applet: Seq<char>, name: Seq<char>) -> Result<
    ClientLaunchView,
    SpawnError,
>
    decreases files.len(),
{
    if files.len() == 0 {
        Err(SpawnError::NotFound)
    } else if files.first().settles(applet, name) {
        files.first().found(name)
    } else {
        search(files.drop_first(), applet, name)
    }
}

/// The value of the outcome of a search.
pub open spec fn search_of(found: Result<ClientLaunch, SpawnError>) -> Result<
    ClientLaunchView,
    SpawnError,
> {
    match found {
        Ok(launch) => Ok(launch@),
        Err(err) => Err(err),
    }
}

/// `DesktopEntry::decode` and `DesktopEntry::desktop_entry` of the crate
/// `freedesktop_desktop_entry`: the value that the file's main group has for
/// the key, which depends on the text and the key alone. Decoding refuses only
/// a path without a stem and takes nothing but the entry's id from the path,
/// so the same path does for every text. It does not get past a line that
/// starts with an equals sign, so there must be none.
#[verifier::external_body]
fn desktop_entry(text: &str, key: &str) -> (value: Option<String>)
    requires
        decodable(text@),
    ensures
        text_of(value) == desktop_value(text@, key@),
{
    let path = std::path::Path::new("client.desktop");
    let entry = freedesktop_desktop_entry::DesktopEntry::decode(path, text).ok()?;
    entry.desktop_entry(key).map(|value| value.to_owned())
}

/// Whether the character is white space.
fn is_blank_char(c: char) -> (blank: bool)
    ensures
        blank == is_blank(c),
{
    let n: u32 = c as u32;
    (0x9 <= n && n <= 0xd) || n == 0x20 || n == 0x85 || n == 0xa0 || n == 0x1680 || (0x2000 <= n
        && n <= 0x200a) || n == 0x2028 || n == 0x2029 || n == 0x202f || n == 0x205f || n == 0x3000
}

/// Whether no line of the text has a value without a key.
pub fn is_decodable(text: &str) -> (decodable: bool)
    ensures
        decodable == self::decodable(text@),
{
    let mut blank: bool = true;
    for c in it: text.chars()
        invariant
            it.seq() == text@,
            blank == line_blank(text@, it.index() as int),
            forall|i: int|
                0 <= i < it.index() && #[trigger] text@[i] == '=' ==> !line_blank(text@, i),
    {
        if c == '=' && blank {
            return false;
        }
        blank = c == '\n' || (is_blank_char(c) && blank);
    }
    true
}

/// How a client is started from a file with the given command line, if it has
/// one.
pub fn client_launch(
    command: Option<String>,
    host_display: Option<String>,
    name: &String,
) -> (launch: Option<ClientLaunch>)
    ensures
        launch_of(launch) == launch_from(text_of(command), text_of(host_display), name@),
{
    match command {
        Some(command) => Some(
            ClientLaunch {
                command,
                name: name.clone(),
                requests_host_wayland_display: host_display.is_some(),
            },
        ),
        None => None,
    }
}

impl SpaceView {
    /// The space once its client was started.
    pub open spec fn after_client_spawned(self) -> SpaceView {
        SpaceView { child: true, ..self }
    }
}

impl SimpleWrapperSpace {
    /// Whether a client may be started: a space has one client only.
    pub fn spawn_clients(&self) -> (ready: Result<(), SpawnError>)
        ensures
            ready == (if self@.child {
                Err(SpawnError::AlreadySpawned)
            } else {
                Ok(())
            }),
    {
        if self.child {
            Err(SpawnError::AlreadySpawned)
        } else {
            Ok(())
        }
    }

    /// Whether a desktop file with the given stem describes the client.
    pub fn describes_client(&self, stem: &Option<String>) -> (describes: bool)
        ensures
            describes == (text_of(*stem) == Some(self@.config.applet@)),
    {
        match stem {
            Some(stem) => *stem == self.config.applet,
            None => false,
        }
    }

    /// How the client is started from a desktop file with the given text.
    pub fn launch_client(&self, text: &str) -> (launch: Option<ClientLaunch>)
        requires
            decodable(text@),
        ensures
            launch_of(launch) == launch_in(text@, self@.config.name@),
    {
        let command = desktop_entry(text, EXEC_KEY);
        let host_display = desktop_entry(text, HOST_DISPLAY_KEY);
        client_launch(command, host_display, &self.config.name)
    }

    /// How the client is started: from the first of the files that describes it,
    /// was read and says what to execute. The files after that one are of no
    /// account.
    pub fn find_client(&self, files: &Vec<DesktopFile>) -> (found: Result<ClientLaunch, SpawnError>)
        ensures
            search_of(found) == search(
                file_views(files@),
                self@.config.applet@,
                self@.config.name@,
            ),
    {
        let ghost all = file_views(files@);
        let ghost applet = self@.config.applet@;
        let ghost name = self@.config.name@;
        let mut i: usize = 0;
        assert(all.skip(0) =~= all);
        while i < files.len()
            invariant
                i <= files.len(),
                all == file_views(files@),
                applet == self@.config.applet@,
                name == self@.config.name@,
                search(all, applet, name) == search(all.skip(i as int), applet, name),
            decreases files.len() - i,
        {
            assert(all.skip(i as int).first() == files@[i as int]@);
            assert(all.skip(i as int).drop_first() =~= all.skip(i + 1));
            if self.describes_client(&files[i].stem) {
                if let Some(text) = &files[i].text {
                    if !is_decodable(text.as_str()) {
                        return Err(SpawnError::Malformed);
                    }
                    if let Some(launch) = self.launch_client(text.as_str()) {
                        return Ok(launch);
                    }
                }
            }
            i = i + 1;
        }
        Err(SpawnError::NotFound)
    }

    /// Notes that the client was started.
    pub fn client_spawned(&mut self)
        requires
            old(self).wf(),
        ensures
            final(self).wf(),
            final(self)@ == old(self)@.after_client_spawned(),
    {
        self.child = true;
    }
}

/// A search ends at the first file that settles it, and finds what that file
/// says; it finds no client only where no file settles it.
pub proof fn first_settling_file_is_used(
    files: Seq<DesktopFileView>,
    applet: Seq<char>,
    name: Seq<char>,
)
    ensures
        forall|i: int|
            0 <= i < files.len() && (#[trigger] files[i]).settles(applet, name) && (forall|j: int|
                0 <= j < i ==> !(#[trigger] files[j]).settles(applet, name)) ==> search(
                files,
                applet,
                name,
            ) == files[i].found(name),
        search(files, applet, name) == Err::<ClientLaunchView, _>(SpawnError::NotFound)
            <==> forall|i: int|
            0 <= i < files.len() ==> !(#[trigger] files[i]).settles(applet, name),
    decreases files.len(),
{
    if files.len() > 0 {
        let rest = files.drop_first();
        first_settling_file_is_used(rest, applet, name);
        assert forall|i: int| 0 <= i < rest.len() implies rest[i] == #[trigger] files[i + 1] by {}
        if !files.first().settles(applet, name) {
            assert forall|i: int|
                0 <= i < files.len() && (#[trigger] files[i]).settles(applet, name) && (forall|
                    j: int,
                |
                    0 <= j < i ==> !(#[trigger] files[j]).settles(applet, name)) implies search(
                files,
                applet,
                name,
            ) == files[i].found(name) by {
                assert(rest[i - 1] == files[i]);
                assert forall|j: int| 0 <= j < i - 1 implies !(#[trigger] rest[j]).settles(
                    applet,
                    name,
                ) by {
                    assert(rest[j] == files[j + 1]);
                }
            }
            if forall|i: int| 0 <= i < rest.len() ==> !(#[trigger] rest[i]).settles(applet, name) {
                assert forall|i: int| 0 <= i < files.len() implies !(#[trigger] files[i]).settles(
                    applet,
                    name,
                ) by {
                    if i > 0 {
                        assert(rest[i - 1] == files[i]);
                    }
                }
            }
        }
    }
}

/// A client is never found in a file that describes another applet or that could
/// not be read: without such files nothing else is found.
pub proof fn other_files_are_of_no_account(
    files: Seq<DesktopFileView>,
    other: DesktopFileView,
    at: int,
    applet: Seq<char>,
    name: Seq<char>,
)
    requires
        0 <= at <= files.len(),
        !other.describes(applet),
    ensures
        search(files.insert(at, other), applet, name) == search(files, applet, name),
    decreases files.len(),
{
    let more = files.insert(at, other);
    if at == 0 {
        assert(more.first() == other);
        assert(more.drop_first() =~= files);
    } else {
        assert(more.first() == files.first());
        assert(more.drop_first() =~= files.drop_first().insert(at - 1, other));
        other_files_are_of_no_account(files.drop_first(), other, at - 1, applet, name);
    }
}

/// Once a search has ended, the files after it change nothing.
pub proof fn later_files_are_of_no_account(
    files: Seq<DesktopFileView>,
    later: Seq<DesktopFileView>,
    applet: Seq<char>,
    name: Seq<char>,
)
    requires
        search(files, applet, name) != Err::<ClientLaunchView, _>(SpawnError::NotFound),
    ensures
        search(files + later, applet, name) == search(files, applet, name),
    decreases files.len(),
{
    let all = files + later;
    assert(all.first() == files.first());
    if !files.first().settles(applet, name) {
        assert(all.drop_first() =~= files.drop_first() + later);
        later_files_are_of_no_account(files.drop_first(), later, applet, name);
    }
}

/// The client is started from the first file that has the applet's stem, was read and
/// says what to execute, with just that command line and under the given name, and asks
/// for the display of the host exactly if that file has the key for it. The files before
/// that one have another stem, could not be read or do not say what to execute.
pub proof fn client_is_started_from_the_first_usable_file(
    files: Seq<DesktopFileView>,
    applet: Seq<char>,
    name: Seq<char>,
    i: int,
    text: Seq<char>,
    command: Seq<char>,
)
    requires
        0 <= i < files.len(),
        files[i].stem == Some(applet),
        files[i].text == Some(text),
        decodable(text),
        desktop_value(text, "Exec"@) == Some(command),
        forall|j: int|
            0 <= j < i ==> {
                ||| (#[trigger] files[j]).stem != Some(applet)
                ||| files[j].text is None
                ||| decodable(files[j].text->0) && desktop_value(
                    files[j].text->0,
                    "Exec"@,
                ) is None
            },
    ensures
        ({
            &&& search(files, applet, name) matches Ok(launch)
            &&& launch.command == command
            &&& launch.name == name
            &&& launch.requests_host_wayland_display <==> desktop_value(
                text,
                "HostWaylandDisplay"@,
            ) is Some
        }),
{
    first_settling_file_is_used(files, applet, name);
    assert forall|j: int| 0 <= j < i implies !(#[trigger] files[j]).settles(applet, name) by {}
    assert(files[i].settles(applet, name));
}

/// There is no client exactly if no file has the applet's stem, was read and says what
/// to execute, and none of those on the way cannot be decoded; one of those that cannot
/// be decoded ends the search.
pub proof fn unusable_files_start_nothing(
    files: Seq<DesktopFileView>,
    applet: Seq<char>,
    name: Seq<char>,
    i: int,
)
    ensures
        search(files, applet, name) == Err::<ClientLaunchView, _>(SpawnError::NotFound)
            <==> forall|j: int|
            0 <= j < files.len() ==> {
                ||| (#[trigger] files[j]).stem != Some(applet)
                ||| files[j].text is None
                ||| decodable(files[j].text->0) && desktop_value(
                    files[j].text->0,
                    "Exec"@,
                ) is None
            },
        0 <= i < files.len() && files[i].stem == Some(applet) && files[i].text is Some
            && !decodable(files[i].text->0) && (forall|j: int|
            0 <= j < i ==> {
                ||| (#[trigger] files[j]).stem != Some(applet)
                ||| files[j].text is None
                ||| decodable(files[j].text->0) && desktop_value(
                    files[j].text->0,
                    "Exec"@,
                ) is None
            }) ==> search(files, applet, name) == Err::<ClientLaunchView, _>(SpawnError::Malformed),
{
    first_settling_file_is_used(files, applet, name);
    assert forall|j: int| 0 <= j < files.len() implies ((#[trigger] files[j]).settles(applet, name)
        <==> !({
        ||| files[j].stem != Some(applet)
        ||| files[j].text is None
        ||| decodable(files[j].text->0) && desktop_value(files[j].text->0, "Exec"@) is None
    })) by {}
}

/// A text can be started from exactly if it has a command line, and then with just that
/// one, under the given name, and with the display of the host exactly if it has the key
/// for it.
pub proof fn launch_is_what_the_file_says(
    text: Seq<char>,
    command: Option<Seq<char>>,
    host_display: Option<Seq<char>>,
    name: Seq<char>,
)
    ensures
        launch_from(command, host_display, name) is Some <==> command is Some,
        launch_from(command, host_display, name) matches Some(launch) ==> {
            &&& Some(launch.command) == command
            &&& launch.name == name
            &&& launch.requests_host_wayland_display <==> host_display is Some
        },
        launch_in(text, name) == launch_from(
            desktop_value(text, "Exec"@),
            desktop_value(text, "HostWaylandDisplay"@),
            name,
        ),
{
}

proof fn blank_between(text: Seq<char>, start: int, n: int)
    requires
        0 <= start <= n <= text.len(),
        start == 0 || text[start - 1] == '\n',
        forall|k: int| start <= k < n ==> is_blank(#[trigger] text[k]),
    ensures
        line_blank(text, n),
    decreases n,
{
    if n > start {
        blank_between(text, start, n - 1);
        assert(is_blank(text[n - 1]));
    }
}

proof fn no_line_before(text: Seq<char>, n: int) -> (start: int)
    requires
        0 <= n <= text.len(),
        line_blank(text, n),
    ensures
        0 <= start <= n,
        start == 0 || text[start - 1] == '\n',
        forall|k: int| start <= k < n ==> is_blank(#[trigger] text[k]),
    decreases n,
{
    if n == 0 || text[n - 1] == '\n' {
        n
    } else {
        no_line_before(text, n - 1)
    }
}

/// A text with a line that has nothing but white space before an equals sign cannot be
/// decoded.
pub proof fn value_needs_a_key(text: Seq<char>, start: int, at: int)
    requires
        0 <= start <= at < text.len(),
        text[at] == '=',
        start == 0 || text[start - 1] == '\n',
        forall|k: int| start <= k < at ==> is_blank(#[trigger] text[k]),
    ensures
        !decodable(text),
{
    blank_between(text, start, at);
}

/// A text that cannot be decoded has such a line: where it starts, and where its equals
/// sign is.
pub proof fn nothing_else_is_refused(text: Seq<char>) -> (line: (int, int))
    requires
        !decodable(text),
    ensures
        0 <= line.0 <= line.1 < text.len(),
        text[line.1] == '=',
        line.0 == 0 || text[line.0 - 1] == '\n',
        forall|k: int| line.0 <= k < line.1 ==> is_blank(#[trigger] text[k]),
{
    let at = choose|i: int|
        0 <= i < text.len() && #[trigger] text[i] == '=' && line_blank(text, i);
    let start = no_line_before(text, at);
    (start, at)
}

/// Spaces, tabs and the other separators are white space, and no letter, digit or sign
/// of the basic alphabet is.
pub proof fn blanks_are_separators(c: char)
    ensures
        c == ' ' || c == '\t' || c == '\n' || c == '\r' ==> is_blank(c),
        0x21 <= c as u32 <= 0x7e ==> !is_blank(c),
{
}

/// A started client is noted, and nothing else changes.
pub proof fn started_client_is_noted(space: SpaceView)
    ensures
        space.after_client_spawned().child,
        space.after_client_spawned() == (SpaceView {
            child: space.after_client_spawned().child,
            ..space
        }),
{
}

} // verus!
