//! The welcome screen: the entries of its projects list and the event network
//! that decides when the list is updated and which project is opened.
use vstd::prelude::*;

verus! {

// =====================
// === Projects List ===
// =====================

/// The markup that precedes a project's name in its list entry.
pub open spec fn project_icon_html() -> Seq<char> {
    "<img src=\"assets/project.svg\"/> "@
}

/// The inner markup of the list entry of a project: its icon, then its name.
pub fn project_entry_html(project: &str) -> (html: String)
    ensures
        html@ == project_icon_html() + project@,
{
    proof {
        reveal_strlit("<img src=\"assets/project.svg\"/> ");
    }
    let mut html = String::new();
    html.append("<img src=\"assets/project.svg\"/> ");
    html.append(project);
    assert(html@ =~= project_icon_html() + project@);
    html
}

/// An entry of the projects list: its inner markup and the project a click on
/// it opens.
pub struct ProjectEntry {
    /// Inner markup of the entry.
    pub inner_html: String,
    /// Name of the project that a click on the entry opens.
    pub opens: String,
}

/// The entries that updating the projects list inserts, one per project, in order.
pub fn project_list_entries(projects: &Vec<String>) -> (entries: Vec<ProjectEntry>)
    ensures
        entries.len() == projects.len(),
        forall|i: int|
            0 <= i < projects.len() ==> (#[trigger] entries[i]).inner_html@ == project_icon_html()
                + projects[i]@ && entries[i].opens@ == projects[i]@,
{
    let mut entries: Vec<ProjectEntry> = Vec::new();
    let mut i: usize = 0;
    while i < projects.len()
        invariant
            i <= projects.len(),
            entries.len() == i,
            forall|k: int|
                0 <= k < i ==> (#[trigger] entries[k]).inner_html@ == project_icon_html()
                    + projects[k]@ && entries[k].opens@ == projects[k]@,
        decreases projects.len() - i,
    {
        let project: &String = &projects[i];
        entries.push(
            ProjectEntry {
                inner_html: project_entry_html(project.as_str()),
                opens: project.clone(),
            },
        );
        i = i + 1;
    }
    entries
}

// =====================
// === Event Network ===
// =====================

/// An input of the welcome screen.
pub enum WelcomeScreenEvent {
    /// The screen was set up.
    Init,
    /// The list of the user's projects.
    ProjectsList(Vec<String>),
    /// A project was chosen.
    OpenProject(String),
    /// Creating a new project was asked for.
    CreateProject,
}

/// What the welcome screen does on an input.
pub enum WelcomeScreenOutput {
    /// Insert entries for these projects into the projects list.
    UpdateProjectsList(Vec<String>),
    /// Report the project that was opened.
    OpenedProject(Option<String>),
    /// Nothing.
    Nothing,
}

/// The state of the welcome screen's event network: whether its setup is
/// finished, which toggles on each `Init`. Project lists pass only while it is.
pub struct WelcomeScreenNetwork {
    initialization_finished: bool,
}

/// Whether the setup is finished after `event`, from `finished`: `Init` toggles it.
pub open spec fn finished_on(finished: bool, event: WelcomeScreenEvent) -> bool {
    match event {
        WelcomeScreenEvent::Init => !finished,
        _ => finished,
    }
}

/// Whether the setup is finished after `events`, from `finished`.
pub open spec fn finished_after(finished: bool, events: Seq<WelcomeScreenEvent>) -> bool
    decreases events.len(),
{
    if events.len() == 0 {
        finished
    } else {
        finished_after(finished_on(finished, events[0]), events.drop_first())
    }
}

/// How many of `events` are `Init`.
pub open spec fn init_count(events: Seq<WelcomeScreenEvent>) -> nat
    decreases events.len(),
{
    if events.len() == 0 {
        0
    } else {
        (if events[0] is Init {
            1nat
        } else {
            0nat
        }) + init_count(events.drop_first())
    }
}

/// From a fresh network, the setup is finished exactly after an odd number of
/// `Init` events.
pub proof fn lemma_finished_after_odd_inits(finished: bool, events: Seq<WelcomeScreenEvent>)
    ensures
        finished_after(finished, events) == (finished != (init_count(events) % 2 == 1)),
    decreases events.len(),
{
    if events.len() > 0 {
        lemma_finished_after_odd_inits(finished_on(finished, events[0]), events.drop_first());
    }
}

impl WelcomeScreenNetwork {
    /// A network whose setup is not finished.
    pub fn new() -> (network: Self)
        ensures
            !network.finished(),
    {
        WelcomeScreenNetwork { initialization_finished: false }
    }

    /// Whether the setup is finished.
    pub closed spec fn finished(&self) -> bool {
        self.initialization_finished
    }

    /// Whether the setup is finished.
    pub fn initialization_finished(&self) -> (finished: bool)
        ensures
            finished == self.finished(),
    {
        self.initialization_finished
    }

    /// Takes an input of the welcome screen and says what to do.
    pub fn step(&mut self, event: WelcomeScreenEvent) -> (output: WelcomeScreenOutput)
        ensures
            final(self).finished() == finished_on(old(self).finished(), event),
            match event {
                WelcomeScreenEvent::Init => output is Nothing,
                WelcomeScreenEvent::ProjectsList(projects) => if old(self).finished() {
                    output matches WelcomeScreenOutput::UpdateProjectsList(list) && list@
                        == projects@
                } else {
                    output is Nothing
                },
                WelcomeScreenEvent::OpenProject(name) => output matches WelcomeScreenOutput::OpenedProject(
                    opened,
                ) && opened matches Some(n) && n@ == name@,
                WelcomeScreenEvent::CreateProject => output is Nothing,
            },
    {
        match event {
            WelcomeScreenEvent::Init => {
                self.initialization_finished = !self.initialization_finished;
                WelcomeScreenOutput::Nothing
            },
            WelcomeScreenEvent::ProjectsList(projects) => {
                if self.initialization_finished {
                    WelcomeScreenOutput::UpdateProjectsList(projects)
                } else {
                    WelcomeScreenOutput::Nothing
                }
            },
            WelcomeScreenEvent::OpenProject(name) => WelcomeScreenOutput::OpenedProject(Some(name)),
            WelcomeScreenEvent::CreateProject => WelcomeScreenOutput::Nothing,
        }
    }
}

} // verus!
