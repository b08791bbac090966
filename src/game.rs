use crate::command::{keyed, strs_view, Command, InputManager};
use crate::coordinate::{direction_name, direction_of, same_text, shifted, Direction};
use crate::error::GameError;
use crate::location::LocationManager;
use crate::text::{split_words, strings_view, words};
use vstd::prelude::*;

verus! {

/// What a command reports back to the player.
#[derive(Debug)]
pub enum Reply {
    /// Nothing to report.
    Silent,
    /// The name of the current location.
    Surroundings { name: String },
    /// A direction looked in, by its full name, and the name of the location there.
    Sighted { direction: String, name: String },
}

/// The mathematical value of a `Reply`.
pub enum ReplyView {
    Silent,
    Surroundings(Seq<char>),
    Sighted(Seq<char>, Seq<char>),
}

impl View for Reply {
    type V = ReplyView;

    open spec fn view(&self) -> ReplyView {
        match self {
            Reply::Silent => ReplyView::Silent,
            Reply::Surroundings { name } => ReplyView::Surroundings(name@),
            Reply::Sighted { direction, name } => ReplyView::Sighted(direction@, name@),
        }
    }
}

pub open spec fn outcome(r: Result<Reply, GameError>) -> Result<ReplyView, GameError> {
    match r {
        Ok(v) => Ok(v@),
        Err(e) => Err(e),
    }
}

pub open spec fn outcomes(v: Seq<Result<Reply, GameError>>) -> Seq<Result<ReplyView, GameError>> {
    v.map_values(|r: Result<Reply, GameError>| outcome(r))
}

/// The state of a session, as values.
pub struct GameState {
    pub commands: Map<Seq<char>, Command>,
    pub schemas: Map<Seq<char>, Seq<Seq<char>>>,
    pub locations: Map<(int, int), (Seq<char>, Seq<char>)>,
    pub position: (int, int),
    pub running: bool,
    pub last_command: Seq<char>,
}

/// What `look` reports: the current location with no direction word after
/// the command word, else the location one step in the direction named.
pub open spec fn look_spec(
    locations: Map<(int, int), (Seq<char>, Seq<char>)>,
    position: (int, int),
    args: Seq<Seq<char>>,
) -> Result<ReplyView, GameError> {
    if args.len() <= 1 {
        if locations.contains_key(position) {
            Ok(ReplyView::Surroundings(locations[position].0))
        } else {
            Err(GameError::UnknownLocation)
        }
    } else {
        match direction_of(args[1]) {
            None => Err(GameError::InvalidDirection),
            Some(d) => {
                let t = shifted(position, d);
                if locations.contains_key(t) {
                    Ok(ReplyView::Sighted(direction_name(d), locations[t].0))
                } else {
                    Err(GameError::UnknownLocation)
                }
            },
        }
    }
}

/// The state and report after the handler `c` runs on `args`.
pub open spec fn handle_spec(s: GameState, c: Command, args: Seq<Seq<char>>) -> (
    GameState,
    Result<ReplyView, GameError>,
) {
    match c {
        Command::Quit => (GameState { running: false, ..s }, Ok(ReplyView::Silent)),
        Command::LookAround => (s, look_spec(s.locations, s.position, args)),
        _ => (s, Ok(ReplyView::Silent)),
    }
}

/// The state and report after the words `tokens` are dispatched: no words do
/// nothing; an unbound first word is `UnknownCommand`; else the handler bound
/// to the first word runs on all the words, which is then the last command.
pub open spec fn dispatch_spec(s: GameState, tokens: Seq<Seq<char>>) -> (
    GameState,
    Result<ReplyView, GameError>,
) {
    if tokens.len() == 0 {
        (s, Ok(ReplyView::Silent))
    } else if !s.commands.contains_key(tokens[0]) {
        (s, Err(GameError::UnknownCommand))
    } else {
        handle_spec(
            GameState { last_command: tokens[0], ..s },
            s.commands[tokens[0]],
            tokens,
        )
    }
}

/// The name for what `str::to_lowercase` returns.
pub uninterp spec fn lower_of(s: Seq<char>) -> Seq<char>;

/// Relies on str::to_lowercase: the lower-case form of the text, which
/// depends on the characters alone.
#[verifier::external_body]
fn lowercase(s: &str) -> (r: String)
    ensures
        r@ == lower_of(s@),
{
    s.to_lowercase()
}

/// The state and reports after the lines `lines` are read in turn, until the
/// session stops.
pub open spec fn play_spec(s: GameState, lines: Seq<Seq<char>>) -> (
    GameState,
    Seq<Result<ReplyView, GameError>>,
)
    decreases lines.len(),
{
    if lines.len() == 0 || !s.running {
        (s, Seq::empty())
    } else {
        let (s1, r) = dispatch_spec(s, words(lower_of(lines[0])));
        let (s2, rs) = play_spec(s1, lines.drop_first());
        (s2, seq![r] + rs)
    }
}

/// The direction word with an abbreviation replaced by the full name.
pub open spec fn expanded(s: Seq<char>) -> Seq<char> {
    if s == "n"@ {
        "north"@
    } else if s == "s"@ {
        "south"@
    } else if s == "e"@ {
        "east"@
    } else if s == "w"@ {
        "west"@
    } else if s == "ne"@ {
        "northeast"@
    } else if s == "nw"@ {
        "northwest"@
    } else if s == "se"@ {
        "southeast"@
    } else if s == "sw"@ {
        "southwest"@
    } else {
        s
    }
}

/// The directions, each by full name and abbreviation.
pub open spec fn direction_words() -> Seq<Seq<char>> {
    seq![
        "north"@, "n"@, "northeast"@, "ne"@, "east"@, "e"@, "southeast"@, "se"@,
        "south"@, "s"@, "southwest"@, "sw"@, "west"@, "w"@, "northwest"@, "nw"@,
    ]
}

/// The argument names of a command that takes none.
pub open spec fn no_args() -> Seq<Seq<char>> {
    seq![""@]
}

/// The default commands, registered in this order over `m`: a later
/// registration rebinds a word bound by an earlier one.
pub open spec fn default_table<V>(
    m: Map<Seq<char>, V>,
    f: spec_fn(Command, Seq<Seq<char>>) -> V,
) -> Map<Seq<char>, V> {
    m.union_prefer_right(keyed("move"@, seq!["m"@], f(Command::MoveCommand, direction_words())))
        .union_prefer_right(keyed("look"@, seq!["l"@], f(Command::LookAround, direction_words())))
        .union_prefer_right(keyed("interact"@, seq!["i"@], f(Command::Interact, no_args())))
        .union_prefer_right(keyed("inventory"@, seq!["inv"@], f(Command::Inventory, no_args())))
        .union_prefer_right(keyed("map"@, seq!["m"@], f(Command::MapView, no_args())))
        .union_prefer_right(keyed("status"@, seq!["stats"@], f(Command::Status, no_args())))
        .union_prefer_right(keyed("save"@, seq!["s"@, "sv"@], f(Command::Save, no_args())))
        .union_prefer_right(keyed("load"@, seq!["ld"@], f(Command::Load, no_args())))
        .union_prefer_right(keyed("help"@, seq!["h"@, "?"@], f(Command::Help, no_args())))
        .union_prefer_right(keyed("quit"@, seq!["q"@, "exit"@, "e"@], f(Command::Quit, no_args())))
}

pub open spec fn default_commands(m: Map<Seq<char>, Command>) -> Map<Seq<char>, Command> {
    default_table(m, |c: Command, a: Seq<Seq<char>>| c)
}

pub open spec fn default_schemas(m: Map<Seq<char>, Seq<Seq<char>>>) -> Map<
    Seq<char>,
    Seq<Seq<char>>,
> {
    default_table(m, |c: Command, a: Seq<Seq<char>>| a)
}

fn directions() -> (r: Vec<&'static str>)
    ensures
        strs_view(r@) == direction_words(),
{
    let r = vec![
        "north", "n", "northeast", "ne", "east", "e", "southeast", "se",
        "south", "s", "southwest", "sw", "west", "w", "northwest", "nw",
    ];
    assert(strs_view(r@) =~= direction_words());
    r
}

/// A game session: its commands, its world and whether it is still running.
pub struct TextAdventure {
    pub input_manager: InputManager,
    pub location_manager: LocationManager,
    pub play_loop: bool,
}

impl TextAdventure {
    pub open spec fn state(&self) -> GameState {
        GameState {
            commands: self.input_manager.commands(),
            schemas: self.input_manager.arg_schemas(),
            locations: self.location_manager.locations(),
            position: self.location_manager.current_position@,
            running: self.play_loop,
            last_command: self.input_manager.last_command@,
        }
    }

    /// A running session over the world `location_manager`, with no commands yet.
    pub fn new(location_manager: LocationManager) -> (r: TextAdventure)
        ensures
            r.state() == (GameState {
                commands: Map::empty(),
                schemas: Map::empty(),
                locations: location_manager.locations(),
                position: location_manager.current_position@,
                running: true,
                last_command: Seq::empty(),
            }),
    {
        TextAdventure { input_manager: InputManager::new(), location_manager, play_loop: true }
    }

    /// Registers the default commands and their abbreviations.
    pub fn load_default_commands(&mut self)
        ensures
            final(self).state() == (GameState {
                commands: default_commands(old(self).state().commands),
                schemas: default_schemas(old(self).state().schemas),
                ..old(self).state()
            }),
    {
        let no: Vec<&str> = vec![""];
        assert(strs_view(no@) =~= no_args());
        let im = &mut self.input_manager;
        let v: Vec<&str> = vec!["m"];
        assert(strs_view(v@) =~= seq!["m"@]);
        im.insert_command_and_abbreviations("move", Command::MoveCommand, directions(), v);
        let v: Vec<&str> = vec!["l"];
        assert(strs_view(v@) =~= seq!["l"@]);
        im.insert_command_and_abbreviations("look", Command::LookAround, directions(), v);
        let v: Vec<&str> = vec!["i"];
        assert(strs_view(v@) =~= seq!["i"@]);
        im.insert_command_and_abbreviations("interact", Command::Interact, vec![""], v);
        let v: Vec<&str> = vec!["inv"];
        assert(strs_view(v@) =~= seq!["inv"@]);
        im.insert_command_and_abbreviations("inventory", Command::Inventory, vec![""], v);
        let v: Vec<&str> = vec!["m"];
        assert(strs_view(v@) =~= seq!["m"@]);
        im.insert_command_and_abbreviations("map", Command::MapView, vec![""], v);
        let v: Vec<&str> = vec!["stats"];
        assert(strs_view(v@) =~= seq!["stats"@]);
        im.insert_command_and_abbreviations("status", Command::Status, vec![""], v);
        let v: Vec<&str> = vec!["s", "sv"];
        assert(strs_view(v@) =~= seq!["s"@, "sv"@]);
        im.insert_command_and_abbreviations("save", Command::Save, vec![""], v);
        let v: Vec<&str> = vec!["ld"];
        assert(strs_view(v@) =~= seq!["ld"@]);
        im.insert_command_and_abbreviations("load", Command::Load, vec![""], v);
        let v: Vec<&str> = vec!["h", "?"];
        assert(strs_view(v@) =~= seq!["h"@, "?"@]);
        im.insert_command_and_abbreviations("help", Command::Help, vec![""], v);
        let v: Vec<&str> = vec!["q", "exit", "e"];
        assert(strs_view(v@) =~= seq!["q"@, "exit"@, "e"@]);
        im.insert_command_and_abbreviations("quit", Command::Quit, no, v);
        assert(self.state().commands =~= default_commands(old(self).state().commands));
        assert(self.state().schemas =~= default_schemas(old(self).state().schemas));
    }

    /// Stops the session.
    pub fn quit(&mut self, _args: &Vec<String>) -> (r: Result<Reply, GameError>)
        ensures
            final(self).state() == (GameState { running: false, ..old(self).state() }),
            outcome(r) == Ok::<ReplyView, GameError>(ReplyView::Silent),
    {
        self.play_loop = false;
        Ok(Reply::Silent)
    }

    /// Moving is an extension point: by default it changes nothing.
    pub fn move_command(&mut self, _args: &Vec<String>) -> (r: Result<Reply, GameError>)
        ensures
            *final(self) == *old(self),
            outcome(r) == Ok::<ReplyView, GameError>(ReplyView::Silent),
    {
        Ok(Reply::Silent)
    }

    /// Interacting is an extension point: by default it changes nothing.
    pub fn interact(&mut self, _args: &Vec<String>) -> (r: Result<Reply, GameError>)
        ensures
            *final(self) == *old(self),
            outcome(r) == Ok::<ReplyView, GameError>(ReplyView::Silent),
    {
        Ok(Reply::Silent)
    }

    /// The inventory is an extension point: by default it changes nothing.
    pub fn inventory(&mut self, _args: &Vec<String>) -> (r: Result<Reply, GameError>)
        ensures
            *final(self) == *old(self),
            outcome(r) == Ok::<ReplyView, GameError>(ReplyView::Silent),
    {
        Ok(Reply::Silent)
    }

    /// Help is an extension point: by default it changes nothing.
    pub fn help(&mut self, _args: &Vec<String>) -> (r: Result<Reply, GameError>)
        ensures
            *final(self) == *old(self),
            outcome(r) == Ok::<ReplyView, GameError>(ReplyView::Silent),
    {
        Ok(Reply::Silent)
    }

    /// Saving is an extension point: by default it changes nothing.
    pub fn save(&mut self, _args: &Vec<String>) -> (r: Result<Reply, GameError>)
        ensures
            *final(self) == *old(self),
            outcome(r) == Ok::<ReplyView, GameError>(ReplyView::Silent),
    {
        Ok(Reply::Silent)
    }

    /// Loading is an extension point: by default it changes nothing.
    pub fn load(&mut self, _args: &Vec<String>) -> (r: Result<Reply, GameError>)
        ensures
            *final(self) == *old(self),
            outcome(r) == Ok::<ReplyView, GameError>(ReplyView::Silent),
    {
        Ok(Reply::Silent)
    }

    /// The status view is an extension point: by default it changes nothing.
    pub fn status(&mut self, _args: &Vec<String>) -> (r: Result<Reply, GameError>)
        ensures
            *final(self) == *old(self),
            outcome(r) == Ok::<ReplyView, GameError>(ReplyView::Silent),
    {
        Ok(Reply::Silent)
    }

    /// The map view is an extension point: by default it changes nothing.
    pub fn map(&mut self, _args: &Vec<String>) -> (r: Result<Reply, GameError>)
        ensures
            *final(self) == *old(self),
            outcome(r) == Ok::<ReplyView, GameError>(ReplyView::Silent),
    {
        Ok(Reply::Silent)
    }

    /// Reports the current location, or with a direction word after the
    /// command word, the location one step in that direction.
    pub fn look_around(&mut self, args: &Vec<String>) -> (r: Result<Reply, GameError>)
        ensures
            *final(self) == *old(self),
            outcome(r) == look_spec(
                old(self).state().locations,
                old(self).state().position,
                strings_view(args@),
            ),
    {
        let ghost a = strings_view(args@);
        if args.len() <= 1 {
            return match self.location_manager.current_location() {
                Ok(l) => Ok(Reply::Surroundings { name: l.name.clone() }),
                Err(e) => Err(e),
            };
        }
        assert(args@[1]@ == a[1]);
        let d = match Direction::parse(args[1].as_str()) {
            Some(d) => d,
            None => return Err(GameError::InvalidDirection),
        };
        let here = self.location_manager.current_position;
        let there = match here.step(d) {
            Some(t) => t,
            None => {
                proof {
                    self.location_manager.lemma_keys_fit(shifted(here@, d));
                }
                return Err(GameError::UnknownLocation);
            },
        };
        match self.location_manager.location_at(there) {
            Some(l) => Ok(Reply::Sighted { direction: d.name().to_owned(), name: l.name.clone() }),
            None => Err(GameError::UnknownLocation),
        }
    }

    /// Runs the handler bound to the first of `tokens` on all of them.
    pub fn dispatch(&mut self, tokens: &Vec<String>) -> (r: Result<Reply, GameError>)
        ensures
            (final(self).state(), outcome(r)) == dispatch_spec(old(self).state(), strings_view(tokens@)),
    {
        let ghost t = strings_view(tokens@);
        if tokens.len() == 0 {
            return Ok(Reply::Silent);
        }
        assert(tokens@[0]@ == t[0]);
        let c = match self.input_manager.lookup(&tokens[0]) {
            Some(c) => c,
            None => return Err(GameError::UnknownCommand),
        };
        self.input_manager.last_command = tokens[0].clone();
        match c {
            Command::Quit => self.quit(tokens),
            Command::MoveCommand => self.move_command(tokens),
            Command::LookAround => self.look_around(tokens),
            Command::Interact => self.interact(tokens),
            Command::Inventory => self.inventory(tokens),
            Command::Help => self.help(tokens),
            Command::Save => self.save(tokens),
            Command::Load => self.load(tokens),
            Command::Status => self.status(tokens),
            Command::MapView => self.map(tokens),
        }
    }

    /// Reads one line of player input: lower-cased and split into words, it
    /// is dispatched.
    pub fn read_player_input(&mut self, line: &str) -> (r: Result<Reply, GameError>)
        ensures
            (final(self).state(), outcome(r)) == dispatch_spec(
                old(self).state(),
                words(lower_of(line@)),
            ),
    {
        let lower = lowercase(line);
        let tokens = split_words(lower.as_str());
        self.dispatch(&tokens)
    }

    /// A direction abbreviation replaced by the full name; any other word
    /// as it is.
    pub fn expand_abbreviation<'a>(&self, abbreviation: &'a str) -> (r: &'a str)
        ensures
            r@ == expanded(abbreviation@),
    {
        if same_text(abbreviation, "n") {
            "north"
        } else if same_text(abbreviation, "s") {
            "south"
        } else if same_text(abbreviation, "e") {
            "east"
        } else if same_text(abbreviation, "w") {
            "west"
        } else if same_text(abbreviation, "ne") {
            "northeast"
        } else if same_text(abbreviation, "nw") {
            "northwest"
        } else if same_text(abbreviation, "se") {
            "southeast"
        } else if same_text(abbreviation, "sw") {
            "southwest"
        } else {
            abbreviation
        }
    }
}


/// The application: one game session with the default commands.
pub struct MyApplication {
    pub game: TextAdventure,
}

impl MyApplication {
    /// A running session over `location_manager`, with no commands yet:
    /// `run` registers the default ones.
    pub fn new(location_manager: LocationManager) -> (r: MyApplication)
        ensures
            r.game.state() == (GameState {
                commands: Map::empty(),
                schemas: Map::empty(),
                locations: location_manager.locations(),
                position: location_manager.current_position@,
                running: true,
                last_command: Seq::empty(),
            }),
    {
        MyApplication { game: TextAdventure::new(location_manager) }
    }

    /// Registers the default commands, then reads `lines` in turn until the
    /// session stops, and gives the report of each line read.
    pub fn run(&mut self, lines: &Vec<String>) -> (r: Vec<Result<Reply, GameError>>)
        ensures
            (final(self).game.state(), outcomes(r@)) == play_spec(
                GameState {
                    commands: default_commands(old(self).game.state().commands),
                    schemas: default_schemas(old(self).game.state().schemas),
                    ..old(self).game.state()
                },
                strings_view(lines@),
            ),
    {
        self.game.load_default_commands();
        let ghost s0 = self.game.state();
        let ghost ls = strings_view(lines@);
        let mut out: Vec<Result<Reply, GameError>> = Vec::new();
        let mut i: usize = 0;
        assert(ls.skip(0) =~= ls);
        assert(outcomes(out@) + play_spec(s0, ls).1 =~= play_spec(s0, ls).1);
        while i < lines.len() && self.game.play_loop
            invariant
                i <= lines.len(),
                ls == strings_view(lines@),
                play_spec(s0, ls) == (
                    play_spec(self.game.state(), ls.skip(i as int)).0,
                    outcomes(out@) + play_spec(self.game.state(), ls.skip(i as int)).1,
                ),
            decreases lines.len() - i,
        {
            let ghost before = self.game.state();
            let ghost prev = out@;
            let ghost rest = ls.skip(i as int);
            assert(rest[0] == lines@[i as int]@);
            assert(rest.drop_first() =~= ls.skip(i + 1));
            let r = self.game.read_player_input(lines[i].as_str());
            out.push(r);
            i = i + 1;
            let ghost tail = play_spec(self.game.state(), ls.skip(i as int)).1;
            assert(outcomes(out@) =~= outcomes(prev).push(outcome(r)));
            assert(outcomes(prev) + (seq![outcome(r)] + tail) =~= outcomes(out@) + tail);
        }
        assert(ls.skip(i as int).len() == 0 || !self.game.play_loop);
        assert(outcomes(out@) + Seq::<Result<ReplyView, GameError>>::empty() =~= outcomes(out@));
        out
    }
}

/// Under a registration, the command word and every one of its
/// abbreviations are bound to the same handler.
pub proof fn lemma_abbreviations_share_handler<V>(
    m: Map<Seq<char>, V>,
    name: Seq<char>,
    abbreviations: Seq<Seq<char>>,
    v: V,
)
    ensures
        ({
            let t = m.union_prefer_right(keyed(name, abbreviations, v));
            &&& t.contains_key(name)
            &&& t[name] == v
            &&& forall|i: int|
                0 <= i < abbreviations.len() ==> t.contains_key(#[trigger] abbreviations[i])
                    && t[abbreviations[i]] == t[name]
        }),
{
    let t = m.union_prefer_right(keyed(name, abbreviations, v));
    assert forall|i: int| 0 <= i < abbreviations.len() implies t.contains_key(
        #[trigger] abbreviations[i],
    ) && t[abbreviations[i]] == t[name] by {
        assert(abbreviations.contains(abbreviations[i]));
    }
}

/// Where two registrations share a word, the later one wins.
pub proof fn lemma_later_registration_wins<V>(
    m: Map<Seq<char>, V>,
    first: Seq<char>,
    first_abbreviations: Seq<Seq<char>>,
    v: V,
    second: Seq<char>,
    second_abbreviations: Seq<Seq<char>>,
    w: V,
    k: Seq<char>,
)
    requires
        k == second || second_abbreviations.contains(k),
    ensures
        m.union_prefer_right(keyed(first, first_abbreviations, v)).union_prefer_right(
            keyed(second, second_abbreviations, w),
        )[k] == w,
{
}

/// Each of the words `quit`, `q`, `exit` and `e` stops a running session
/// that has the default commands.
pub proof fn lemma_quit_words_stop(s: GameState, m: Map<Seq<char>, Command>, w: Seq<char>)
    requires
        s.commands == default_commands(m),
        w == "quit"@ || w == "q"@ || w == "exit"@ || w == "e"@,
    ensures
        s.commands[w] == Command::Quit,
        dispatch_spec(s, seq![w]).0.running == false,
        dispatch_spec(s, seq![w]).0.position == s.position,
        dispatch_spec(s, seq![w]).1 == Ok::<ReplyView, GameError>(ReplyView::Silent),
{
    let abbreviations = seq!["q"@, "exit"@, "e"@];
    assert(abbreviations[0] == "q"@ && abbreviations[1] == "exit"@ && abbreviations[2] == "e"@);
    assert(w == "quit"@ || abbreviations.contains(w));
}

/// A word bound to no command changes nothing and reports `UnknownCommand`.
pub proof fn lemma_unknown_word_keeps_state(s: GameState, tokens: Seq<Seq<char>>)
    requires
        tokens.len() > 0,
        !s.commands.contains_key(tokens[0]),
    ensures
        dispatch_spec(s, tokens) == (s, Err::<ReplyView, GameError>(GameError::UnknownCommand)),
{
}

/// `look` alone reports the name of the current location, where one is
/// mapped; `look north` where nothing is mapped to the north reports
/// `UnknownLocation` and changes nothing.
pub proof fn lemma_look(s: GameState, w: Seq<char>)
    ensures
        s.locations.contains_key(s.position) ==> look_spec(s.locations, s.position, seq![w])
            == Ok::<ReplyView, GameError>(ReplyView::Surroundings(s.locations[s.position].0)),
        !s.locations.contains_key(shifted(s.position, Direction::North)) ==> look_spec(
            s.locations,
            s.position,
            seq![w, "north"@],
        ) == Err::<ReplyView, GameError>(GameError::UnknownLocation),
        handle_spec(s, Command::LookAround, seq![w, "north"@]).0 == s,
{
    crate::coordinate::lemma_name_parses(Direction::North);
}


/// Among the default commands the word `m`, listed for both `move` and
/// `map`, is bound to the later registration, `map`.
pub proof fn lemma_default_collision(m: Map<Seq<char>, Command>)
    ensures
        default_commands(m)["m"@] == Command::MapView,
        default_commands(m)["map"@] == Command::MapView,
{
    reveal_strlit("m");
    reveal_strlit("s");
    reveal_strlit("h");
    reveal_strlit("?");
    reveal_strlit("q");
    reveal_strlit("e");
    assert("m"@.len() == 1 && "s"@.len() == 1 && "h"@.len() == 1);
    assert("?"@.len() == 1 && "q"@.len() == 1 && "e"@.len() == 1);
    reveal_strlit("map");
    reveal_strlit("sv");
    reveal_strlit("ld");
    reveal_strlit("stats");
    reveal_strlit("exit");
    reveal_strlit("status");
    reveal_strlit("save");
    reveal_strlit("load");
    reveal_strlit("help");
    reveal_strlit("quit");
    assert("map"@.len() == 3 && "sv"@.len() == 2 && "ld"@.len() == 2 && "stats"@.len() == 5);
    assert("exit"@.len() == 4 && "status"@.len() == 6 && "save"@.len() == 4);
    assert("load"@.len() == 4 && "help"@.len() == 4 && "quit"@.len() == 4);
    assert("m"@[0] != "s"@[0] && "m"@[0] != "h"@[0] && "m"@[0] != "?"@[0]);
    assert("m"@[0] != "q"@[0] && "m"@[0] != "e"@[0]);
    assert(!seq!["stats"@].contains("m"@));
    assert(!seq!["s"@, "sv"@].contains("m"@));
    assert(!seq!["ld"@].contains("m"@));
    assert(!seq!["h"@, "?"@].contains("m"@));
    assert(!seq!["q"@, "exit"@, "e"@].contains("m"@));
    assert(!seq!["stats"@].contains("map"@));
    assert(!seq!["s"@, "sv"@].contains("map"@));
    assert(!seq!["ld"@].contains("map"@));
    assert(!seq!["h"@, "?"@].contains("map"@));
    assert(!seq!["q"@, "exit"@, "e"@].contains("map"@));
    assert(seq!["m"@].contains("m"@)) by {
        assert(seq!["m"@][0] == "m"@);
    }
}

} // verus!
