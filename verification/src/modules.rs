use crate::config::{
    get_key_value, key_value, key_value_as, module_at, try_get_key_value_as, ConfigKeyValue,
    ConfigModule,
};
use crate::text::{chars_of, same_chars, split_words, string_of, words};
use vstd::prelude::*;

verus! {

/// A sampler: it produces the text of one task, nothing where the task has nothing to show, or
/// a message where it failed. `ts` is the time in milliseconds since the task was last due.
pub trait ModuleImplementation {
    /// Samples once.
    fn run(&mut self, ts: u64) -> Result<Option<String>, String>;
}

/// One task of the scheduler: its sampler, and how and when it runs. Times are in
/// milliseconds.
pub struct ModuleRuntime {
    pub module: Box<dyn ModuleImplementation>,
    pub name: String,
    pub icon: Option<String>,
    pub unixsignal: Option<u8>,
    pub interval: u64,
    pub startdelay: u64,
}

/// A task without its sampler, as a plain value.
pub struct Task {
    pub name: Seq<char>,
    pub icon: Option<Seq<char>>,
    pub unixsignal: Option<u8>,
    pub interval: u64,
    pub startdelay: u64,
}

impl View for ModuleRuntime {
    type V = Task;

    open spec fn view(&self) -> Task {
        Task {
            name: self.name@,
            icon: match self.icon {
                Some(s) => Some(s@),
                None => None,
            },
            unixsignal: self.unixsignal,
            interval: self.interval,
            startdelay: self.startdelay,
        }
    }
}

/// The tasks of `modules` as plain values.
pub open spec fn tasks_of(modules: Seq<ModuleRuntime>) -> Seq<Task> {
    Seq::new(modules.len(), |i: int| modules[i]@)
}

/// A way to make the sampler of one kind of module from the module's settings.
pub trait ModuleInit {
    /// Makes the sampler of a module with the settings `config`, or says why it cannot.
    fn init(&self, config: &Vec<ConfigKeyValue>) -> Result<Box<dyn ModuleImplementation>, String>;
}

/// One kind of module that can be loaded: the name that a module's `implements` setting gives
/// it, and the way to make its sampler.
pub struct ModuleKind {
    pub name: String,
    pub init: Box<dyn ModuleInit>,
}

/// The names of the kinds `kinds`.
pub open spec fn kind_names(kinds: Seq<ModuleKind>) -> Seq<Seq<char>> {
    Seq::new(kinds.len(), |i: int| kinds[i].name@)
}

/// The place of the first of `names` at or after `from` that is `name`.
pub open spec fn name_at(names: Seq<Seq<char>>, name: Seq<char>, from: int) -> Option<int>
    decreases names.len() - from,
{
    if from < 0 || from >= names.len() {
        None
    } else if names[from] == name {
        Some(from)
    } else {
        name_at(names, name, from + 1)
    }
}

/// A module that is to be loaded, as a plain value: the task it makes, and where its settings
/// and its kind stand.
pub struct Planned {
    pub task: Task,
    pub settings: int,
    pub kind: int,
}

/// A module that is to be loaded: the task it makes, and where its settings stand in the
/// configuration and its kind among the kinds.
pub struct ModulePlan {
    pub name: String,
    pub icon: Option<String>,
    pub unixsignal: Option<u8>,
    pub interval: u64,
    pub startdelay: u64,
    pub settings: usize,
    pub kind: usize,
}

impl View for ModulePlan {
    type V = Planned;

    open spec fn view(&self) -> Planned {
        Planned {
            task: Task {
                name: self.name@,
                icon: match self.icon {
                    Some(s) => Some(s@),
                    None => None,
                },
                unixsignal: self.unixsignal,
                interval: self.interval,
                startdelay: self.startdelay,
            },
            settings: self.settings as int,
            kind: self.kind as int,
        }
    }
}

/// The message for a configuration without the module `general`.
pub open spec fn no_general() -> Seq<char> {
    "The config file is missing the [general] module."@
}

/// The message for a configuration whose module `general` names no modules.
pub open spec fn no_modules() -> Seq<char> {
    "There are no modules to load - module [general] must contain a list of modules to enable."@
}

/// The message for a setting that is no number of the kind it has to be.
pub open spec fn bad_number(key: Seq<char>) -> Seq<char> {
    "Invalid number in setting "@ + key
}

/// The setting `key` of `settings` as a number, or `default` where it is not set; the message
/// `bad_number` where it is set to something else.
pub open spec fn number_or(settings: Seq<ConfigKeyValue>, key: Seq<char>, default: u64) -> Result<
    u64,
    Seq<char>,
> {
    match key_value_as::<u64>(settings, key) {
        Some(Some(n)) => Ok(n),
        Some(None) => Err(bad_number(key)),
        None => Ok(default),
    }
}

/// What is to be loaded for the enabled name `name`. Nothing where the configuration has no
/// module of that name, where the module does not say what it implements, or where no kind has
/// the name that it says. Else the task runs every `interval` milliseconds (a second unless
/// set) after `startdelay` milliseconds (none unless set), with the icon `icon` and the
/// interrupt `unixsignal` where they are set; a number that does not read as one is an error.
pub open spec fn planned_one(config: Seq<ConfigModule>, kinds: Seq<Seq<char>>, name: Seq<char>) -> Result<
    Option<Planned>,
    Seq<char>,
> {
    match module_at(config, name, 0) {
        None => Ok(None),
        Some(at) => {
            let settings = config[at].settings@;
            match key_value(settings, "implements"@) {
                None => Ok(None),
                Some(implem) => match name_at(kinds, implem, 0) {
                    None => Ok(None),
                    Some(kind) => match number_or(settings, "interval"@, 1000) {
                        Err(e) => Err(e),
                        Ok(interval) => match number_or(settings, "startdelay"@, 0) {
                            Err(e) => Err(e),
                            Ok(startdelay) => match key_value_as::<u8>(settings, "unixsignal"@) {
                                Some(None) => Err(bad_number("unixsignal"@)),
                                Some(Some(n)) => Ok(
                                    Some(
                                        Planned {
                                            task: Task {
                                                name: implem,
                                                icon: key_value(settings, "icon"@),
                                                unixsignal: Some(n),
                                                interval,
                                                startdelay,
                                            },
                                            settings: at,
                                            kind,
                                        },
                                    ),
                                ),
                                None => Ok(
                                    Some(
                                        Planned {
                                            task: Task {
                                                name: implem,
                                                icon: key_value(settings, "icon"@),
                                                unixsignal: None,
                                                interval,
                                                startdelay,
                                            },
                                            settings: at,
                                            kind,
                                        },
                                    ),
                                ),
                            },
                        },
                    },
                },
            }
        },
    }
}

/// What is to be loaded for the first `k` of the enabled names `names`, in their order; the
/// first error where there is one.
pub open spec fn planned_upto(
    config: Seq<ConfigModule>,
    kinds: Seq<Seq<char>>,
    names: Seq<Seq<char>>,
    k: int,
) -> Result<Seq<Planned>, Seq<char>>
    decreases k,
{
    if k <= 0 {
        Ok(Seq::empty())
    } else {
        match planned_upto(config, kinds, names, k - 1) {
            Err(e) => Err(e),
            Ok(list) => match planned_one(config, kinds, names[k - 1]) {
                Err(e) => Err(e),
                Ok(Some(p)) => Ok(list.push(p)),
                Ok(None) => Ok(list),
            },
        }
    }
}

/// What is to be loaded under the configuration `config`: a module for each word of the
/// setting `modules` of the module `general`, as `planned_one` says.
pub open spec fn planned(config: Seq<ConfigModule>, kinds: Seq<Seq<char>>) -> Result<
    Seq<Planned>,
    Seq<char>,
> {
    match module_at(config, "general"@, 0) {
        None => Err(no_general()),
        Some(at) => match key_value(config[at].settings@, "modules"@) {
            None => Err(no_modules()),
            Some(list) => planned_upto(config, kinds, words(list), words(list).len() as int),
        },
    }
}

/// What `plan` returns, as a plain value.
pub open spec fn plan_view(r: Result<Vec<ModulePlan>, String>) -> Result<Seq<Planned>, Seq<char>> {
    match r {
        Ok(list) => Ok(Seq::new(list@.len(), |i: int| list@[i]@)),
        Err(e) => Err(e@),
    }
}

/// The place of the first of `kinds` that is called `name`.
pub fn find_kind(kinds: &Vec<ModuleKind>, name: &Vec<char>) -> (r: Option<usize>)
    ensures
        match name_at(kind_names(kinds@), name@, 0) {
            Some(i) => r == Some(i as usize) && 0 <= i < kinds.len(),
            None => r is None,
        },
{
    let mut i: usize = 0;
    while i < kinds.len()
        invariant
            i <= kinds.len(),
            name_at(kind_names(kinds@), name@, 0) == name_at(kind_names(kinds@), name@, i as int),
        decreases kinds.len() - i,
    {
        let this = chars_of(kinds[i].name.as_str());
        assert(kind_names(kinds@)[i as int] == kinds@[i as int].name@);
        if same_chars(&this, name) {
            return Some(i);
        }
        i += 1;
    }
    None
}

/// The place of the first module of `cfg` that is called `name`.
pub fn find_module(cfg: &Vec<ConfigModule>, name: &Vec<char>) -> (r: Option<usize>)
    ensures
        match module_at(cfg@, name@, 0) {
            Some(i) => r == Some(i as usize) && 0 <= i < cfg.len(),
            None => r is None,
        },
{
    let mut i: usize = 0;
    while i < cfg.len()
        invariant
            i <= cfg.len(),
            module_at(cfg@, name@, 0) == module_at(cfg@, name@, i as int),
        decreases cfg.len() - i,
    {
        let this = chars_of(cfg[i].name.as_str());
        if same_chars(&this, name) {
            return Some(i);
        }
        i += 1;
    }
    None
}

/// The message for a setting that is no number of the kind it has to be.
fn bad_number_message(key: &str) -> (r: String)
    ensures
        r@ == bad_number(key@),
{
    let mut out = chars_of("Invalid number in setting ");
    let key = chars_of(key);
    crate::text::append_chars(&mut out, &key);
    string_of(&out)
}

/// The setting `key` of `settings` as a number, or `default` where it is not set.
fn read_number_or(settings: &Vec<ConfigKeyValue>, key: &str, default: u64) -> (r: Result<
    u64,
    String,
>)
    ensures
        match number_or(settings@, key@, default) {
            Ok(n) => r == Ok::<u64, String>(n),
            Err(e) => r is Err && r->Err_0@ == e,
        },
{
    match try_get_key_value_as::<u64>(settings, key) {
        Some(Some(n)) => Ok(n),
        Some(None) => Err(bad_number_message(key)),
        None => Ok(default),
    }
}

/// What is to be loaded for the enabled name `name`.
pub fn plan_one(config: &Vec<ConfigModule>, available: &Vec<ModuleKind>, name: &Vec<char>) -> (r:
    Result<Option<ModulePlan>, String>)
    ensures
        match planned_one(config@, kind_names(available@), name@) {
            Ok(Some(p)) => r is Ok && r->Ok_0 is Some && r->Ok_0->Some_0@ == p && p.settings
                < config.len() && p.kind < available.len(),
            Ok(None) => r is Ok && r->Ok_0 is None,
            Err(e) => r is Err && r->Err_0@ == e,
        },
{
    let at = match find_module(config, name) {
        Some(at) => at,
        None => {
            return Ok(None);
        },
    };
    let settings = &config[at].settings;
    let implem = match get_key_value(settings, "implements") {
        Some(implem) => implem,
        None => {
            return Ok(None);
        },
    };
    let implem_chars = chars_of(implem);
    let kind = match find_kind(available, &implem_chars) {
        Some(kind) => kind,
        None => {
            return Ok(None);
        },
    };
    let interval = match read_number_or(settings, "interval", 1000) {
        Ok(n) => n,
        Err(e) => {
            return Err(e);
        },
    };
    let startdelay = match read_number_or(settings, "startdelay", 0) {
        Ok(n) => n,
        Err(e) => {
            return Err(e);
        },
    };
    let unixsignal: Option<u8> = match try_get_key_value_as::<u8>(settings, "unixsignal") {
        Some(Some(n)) => Some(n),
        Some(None) => {
            return Err(bad_number_message("unixsignal"));
        },
        None => None,
    };
    let icon: Option<String> = match get_key_value(settings, "icon") {
        Some(icon) => Some(icon.to_owned()),
        None => None,
    };
    Ok(
        Some(
            ModulePlan {
                name: implem.to_owned(),
                icon,
                unixsignal,
                interval,
                startdelay,
                settings: at,
                kind,
            },
        ),
    )
}

/// What is to be loaded under the configuration `config`, where `available` are the kinds of
/// module that there are.
pub fn plan(config: &Vec<ConfigModule>, available: &Vec<ModuleKind>) -> (r: Result<
    Vec<ModulePlan>,
    String,
>)
    ensures
        plan_view(r) == planned(config@, kind_names(available@)),
        r matches Ok(list) ==> forall|i: int|
            0 <= i < list@.len() ==> (#[trigger] list@[i]).settings < config.len() && list@[i].kind
                < available.len(),
{
    let general = match crate::config::get_module(config, "general") {
        Some(general) => general,
        None => {
            return Err("The config file is missing the [general] module.".to_owned());
        },
    };
    let listed = match get_key_value(general, "modules") {
        Some(listed) => listed,
        None => {
            return Err(
                "There are no modules to load - module [general] must contain a list of modules to enable.".to_owned(),
            );
        },
    };
    let listed_chars = chars_of(listed);
    let names = split_words(&listed_chars);
    let ghost wanted = words(listed@);
    let mut out: Vec<ModulePlan> = Vec::new();
    let mut k: usize = 0;
    assert(Seq::new(out@.len(), |i: int| out@[i]@) =~= Seq::<Planned>::empty());
    while k < names.len()
        invariant
            k <= names.len(),
            names@.len() == wanted.len(),
            planned(config@, kind_names(available@)) == planned_upto(
                config@,
                kind_names(available@),
                wanted,
                wanted.len() as int,
            ),
            forall|j: int| 0 <= j < names@.len() ==> (#[trigger] names@[j])@ == wanted[j],
            planned_upto(config@, kind_names(available@), wanted, k as int) == Ok::<
                Seq<Planned>,
                Seq<char>,
            >(Seq::new(out@.len(), |i: int| out@[i]@)),
            forall|i: int|
                0 <= i < out@.len() ==> (#[trigger] out@[i]).settings < config.len() && out@[i].kind
                    < available.len(),
        decreases names.len() - k,
    {
        let ghost before = Seq::new(out@.len(), |i: int| out@[i]@);
        assert(names@[k as int]@ == wanted[k as int]);
        match plan_one(config, available, &names[k]) {
            Ok(Some(p)) => {
                let ghost pv = p@;
                out.push(p);
                assert(Seq::new(out@.len(), |i: int| out@[i]@) =~= before.push(pv));
            },
            Ok(None) => {},
            Err(e) => {
                proof {
                    assert(planned_upto(config@, kind_names(available@), wanted, k + 1) == Err::<
                        Seq<Planned>,
                        Seq<char>,
                    >(e@));
                    lemma_planned_error_stays(
                        config@,
                        kind_names(available@),
                        wanted,
                        k + 1,
                        wanted.len() as int,
                    );
                }
                return Err(e);
            },
        }
        k += 1;
    }
    Ok(out)
}

/// Once planning has failed, it has failed for good.
proof fn lemma_planned_error_stays(
    config: Seq<ConfigModule>,
    kinds: Seq<Seq<char>>,
    names: Seq<Seq<char>>,
    k: int,
    n: int,
)
    requires
        k <= n,
        planned_upto(config, kinds, names, k) is Err,
    ensures
        planned_upto(config, kinds, names, n) == planned_upto(config, kinds, names, k),
    decreases n - k,
{
    if k < n {
        lemma_planned_error_stays(config, kinds, names, k, n - 1);
    }
}

/// The tasks of the planned modules `list`.
pub open spec fn planned_tasks(list: Seq<Planned>) -> Seq<Task> {
    Seq::new(list.len(), |i: int| list[i].task)
}

/// Whether `picked` is made of members of `from`, each taken at most once and in their order.
pub open spec fn selected(picked: Seq<Task>, from: Seq<Task>) -> bool
    decreases from.len(),
{
    if picked.len() == 0 {
        true
    } else if from.len() == 0 {
        false
    } else {
        ||| picked.last() == from.last() && selected(picked.drop_last(), from.drop_last())
        ||| selected(picked, from.drop_last())
    }
}

/// The task of the planned module `plan`, where `made` is what making its sampler gave: the
/// task as planned, with the sampler, where the sampler could be made, and nothing where it
/// could not.
pub fn loaded_module(plan: &ModulePlan, made: Result<Box<dyn ModuleImplementation>, String>) -> (r:
    Option<ModuleRuntime>)
    ensures
        r is Some <==> made is Ok,
        r matches Some(runtime) ==> runtime@ == plan@.task,
{
    match made {
        Ok(module) => Some(
            ModuleRuntime {
                module,
                name: plan.name.clone(),
                icon: match &plan.icon {
                    Some(icon) => Some(icon.clone()),
                    None => None,
                },
                unixsignal: plan.unixsignal,
                interval: plan.interval,
                startdelay: plan.startdelay,
            },
        ),
        Err(_) => None,
    }
}

/// Puts `runtime` at the end of `loaded`.
fn add_task(loaded: &mut Vec<ModuleRuntime>, runtime: ModuleRuntime)
    ensures
        tasks_of(final(loaded)@) == tasks_of(old(loaded)@).push(runtime@),
{
    let ghost before = loaded@;
    let ghost made = runtime@;
    loaded.push(runtime);
    assert(loaded@[before.len() as int]@ == made);
    assert forall|j: int| 0 <= j < before.len() implies loaded@[j]@ == before[j]@ by {}
    assert(tasks_of(loaded@) =~= tasks_of(before).push(made));
}

/// Loads the modules that the configuration `config` enables, where `available` are the kinds
/// of module that there are.
///
/// It fails where planning fails, with the same message. Else it makes the sampler of each
/// planned module from the module's settings, and returns the tasks of those whose sampler
/// could be made, in the order of the plan, each as `loaded_module` says.
pub fn init(config: &Vec<ConfigModule>, available: &Vec<ModuleKind>) -> (r: Result<
    Vec<ModuleRuntime>,
    String,
>)
    ensures
        match planned(config@, kind_names(available@)) {
            Err(e) => r is Err && r->Err_0@ == e,
            Ok(list) => r is Ok && selected(tasks_of(r->Ok_0@), planned_tasks(list)),
        },
{
    let plans = match plan(config, available) {
        Ok(plans) => plans,
        Err(e) => {
            return Err(e);
        },
    };
    let ghost list = Seq::new(plans@.len(), |i: int| plans@[i]@);
    let ghost tasks = planned_tasks(list);
    let mut loaded: Vec<ModuleRuntime> = Vec::new();
    let mut i: usize = 0;
    assert(tasks_of(loaded@) =~= Seq::<Task>::empty());
    while i < plans.len()
        invariant
            i <= plans.len(),
            list == Seq::new(plans@.len(), |i: int| plans@[i]@),
            tasks == planned_tasks(list),
            forall|j: int|
                0 <= j < plans@.len() ==> (#[trigger] plans@[j]).settings < config.len()
                    && plans@[j].kind < available.len(),
            selected(tasks_of(loaded@), tasks.take(i as int)),
        decreases plans.len() - i,
    {
        let p = &plans[i];
        let ghost before = tasks_of(loaded@);
        assert(tasks.take(i + 1).drop_last() == tasks.take(i as int));
        assert(tasks.take(i + 1).last() == p@.task);
        let made = available[p.kind].init.init(&config[p.settings].settings);
        match loaded_module(p, made) {
            Some(runtime) => {
                add_task(&mut loaded, runtime);
                assert(tasks_of(loaded@).drop_last() =~= before);
            },
            None => {},
        }
        i += 1;
    }
    assert(tasks.take(plans.len() as int) == tasks);
    Ok(loaded)
}

} // verus!
