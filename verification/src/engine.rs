//! The engine that runs a game: what is on the screen, and what a key does to it.
use vstd::prelude::*;

verus! {

/// A game that the engine can run.
pub trait Game {
    /// Lets the game go on by itself for one turn and puts what is to be
    /// shown into `content`.  Returns false when the game wants to end.
    fn update(&mut self, content: &mut String) -> bool;

    /// True if the game needs a key before it can go on.
    fn wait_for_input(&self) -> bool;

    /// The first screen.
    fn init_screen(&mut self) -> String;

    /// Handles the key `key` and puts what is to be shown into `content`.
    /// Returns true if it stays on the screen, false if it is taken back.
    fn react(&mut self, content: &mut String, key: char) -> bool;
}

/// The screen: what is to be shown, what was shown last, and what was shown
/// before that.
pub struct Scene {
    current: String,
    tmp: String,
    last: String,
}

/// What a scene holds.
pub struct SceneView {
    /// What is to be shown.
    pub current: Seq<char>,
    /// What was shown last.
    pub tmp: Seq<char>,
    /// What was shown before that.
    pub last: Seq<char>,
}

impl View for Scene {
    type V = SceneView;

    closed spec fn view(&self) -> SceneView {
        SceneView { current: self.current@, tmp: self.tmp@, last: self.last@ }
    }
}

impl SceneView {
    /// The scene on which nothing was shown yet.
    pub open spec fn empty() -> SceneView {
        SceneView { current: Seq::empty(), tmp: Seq::empty(), last: Seq::empty() }
    }

    /// The scene after `text` was put on it as the first screen.
    pub open spec fn init(self, text: Seq<char>) -> SceneView {
        SceneView { current: text, tmp: self.tmp, last: text }
    }

    /// The scene after its content was shown.
    pub open spec fn render(self) -> SceneView {
        SceneView { current: self.current, tmp: self.current, last: self.tmp }
    }

    /// The scene after what was shown last was taken back.
    pub open spec fn undo(self) -> SceneView {
        SceneView { current: self.last, tmp: self.last, last: self.last }
    }
}

impl Scene {
    /// An empty scene.
    pub fn new() -> (r: Scene)
        ensures
            r@ == SceneView::empty(),
    {
        Scene { current: String::new(), tmp: String::new(), last: String::new() }
    }

    /// Puts the first screen of `game` on the scene.
    fn init<G: Game + ?Sized>(&mut self, game: &mut Box<G>)
        ensures
            final(self)@ == old(self)@.init(final(self)@.current),
    {
        self.current = game.init_screen();
        self.last = self.current.clone();
    }

    /// Takes back what was shown last: the content before it is to be
    /// shown again.
    pub fn undo(&mut self)
        ensures
            final(self)@ == old(self)@.undo(),
    {
        self.current = self.last.clone();
        self.tmp = self.current.clone();
    }

    /// Hands out the content to be shown, and remembers it as shown.
    pub fn render(&mut self) -> (r: String)
        ensures
            r@ == old(self)@.current,
            final(self)@ == old(self)@.render(),
    {
        self.last = self.tmp.clone();
        self.tmp = self.current.clone();
        self.current.clone()
    }
}

/// Runs a game: asks it for its screens and hands it the keys.
pub struct Engine<G: Game + ?Sized> {
    game: Box<G>,
    scene: Scene,
    running: bool,
}

/// What an engine holds.
pub struct EngineView<G: Game + ?Sized> {
    /// The game that the engine runs.
    pub game: Box<G>,
    /// The screen.
    pub scene: SceneView,
    /// Whether the engine runs.
    pub running: bool,
}

impl<G: Game + ?Sized> View for Engine<G> {
    type V = EngineView<G>;

    closed spec fn view(&self) -> EngineView<G> {
        EngineView { game: self.game, scene: self.scene@, running: self.running }
    }
}

impl<G: Game + ?Sized> Engine<G> {
    /// An engine that runs `game`, not yet running, with an empty screen.
    pub fn new(game: Box<G>) -> (r: Engine<G>)
        ensures
            r@ == (EngineView { game, scene: SceneView::empty(), running: false }),
    {
        let scene = Scene::new();
        Engine { game, scene, running: false }
    }

    /// Whether the engine runs.
    pub fn running(&self) -> (r: bool)
        ensures
            r == self@.running,
    {
        self.running
    }

    /// True if the game needs a key before it can go on.
    pub fn wait_for_input(&self) -> bool {
        self.game.wait_for_input()
    }

    /// Starts the engine and hands out the first screen of the game, which
    /// is to be shown.
    pub fn begin(&mut self) -> (r: String)
        ensures
            final(self)@.running,
            final(self)@.scene == old(self)@.scene.init(r@).render(),
    {
        self.running = true;
        self.scene.init(&mut self.game);
        self.scene.render()
    }

    /// One round of the engine.  `key` is the key that was pressed, or `None`
    /// if the game goes on without one.  Returns what is to be shown now, or
    /// `None` if nothing is.
    ///
    /// The key `q` stops the engine and shows nothing.  Any other key goes to
    /// the game; what the game then puts on the screen is shown, and unless
    /// the game says that it stays, it is taken back after it was shown.
    /// Without a key the game takes its turn, its screen is shown, and the
    /// engine runs on if the game says so.
    pub fn handle(&mut self, key: Option<char>) -> (r: Option<String>)
        ensures
            key == Some('q') ==> {
                &&& r is None
                &&& !final(self)@.running
                &&& final(self)@.scene == old(self)@.scene
                &&& final(self)@.game == old(self)@.game
            },
            key != Some('q') ==> r is Some,
            key is Some && key != Some('q') ==> final(self)@.running == old(self)@.running,
            r matches Some(shown) ==> {
                let put = SceneView {
                    current: shown@,
                    tmp: old(self)@.scene.tmp,
                    last: old(self)@.scene.last,
                };
                final(self)@.scene == put.render() || (key is Some && final(self)@.scene
                    == put.render().undo())
            },
    {
        match key {
            Some(pressed) => {
                if pressed == 'q' {
                    self.running = false;
                    None
                } else {
                    let stay: bool = self.game.react(&mut self.scene.current, pressed);
                    let shown: String = self.scene.render();
                    if !stay {
                        self.scene.undo();
                    }
                    Some(shown)
                }
            },
            None => {
                self.running = self.game.update(&mut self.scene.current);
                let shown: String = self.scene.render();
                Some(shown)
            },
        }
    }
}

} // verus!
