use corrodedbar::args::AppParams;
use corrodedbar::config::{ConfigKeyValue, ConfigModule};
use corrodedbar::decimal::Decimal;
use corrodedbar::module::memory::MemField;
use corrodedbar::module::{
    backlight, battery, bluetooth, cpu, memory, microphone, network, time, uptime,
};
use corrodedbar::modules::{
    init, loaded_module, plan, plan_one, ModuleImplementation, ModuleInit, ModuleKind,
};
use corrodedbar::text::{lines_of, words_of};
use corrodedbar::utils::{read_line, read_line_as};

struct Fixed(String);

impl ModuleImplementation for Fixed {
    fn run(&mut self, _ts: u64) -> Result<Option<String>, String> {
        Ok(Some(self.0.clone()))
    }
}

struct Works;

impl ModuleInit for Works {
    fn init(&self, config: &Vec<ConfigKeyValue>) -> Result<Box<dyn ModuleImplementation>, String> {
        Ok(Box::new(Fixed(format!("{} settings", config.len()))))
    }
}

struct Fails;

impl ModuleInit for Fails {
    fn init(&self, _config: &Vec<ConfigKeyValue>) -> Result<Box<dyn ModuleImplementation>, String> {
        Err("no device".to_string())
    }
}

fn kinds() -> Vec<ModuleKind> {
    vec![
        ModuleKind { name: "time".to_string(), init: Box::new(Works) },
        ModuleKind { name: "battery".to_string(), init: Box::new(Fails) },
        ModuleKind { name: "cpu".to_string(), init: Box::new(Works) },
    ]
}

fn kv(key: &str, value: &str) -> ConfigKeyValue {
    ConfigKeyValue { key: key.to_string(), value: value.to_string() }
}

fn section(name: &str, settings: Vec<ConfigKeyValue>) -> ConfigModule {
    ConfigModule { name: name.to_string(), settings }
}

fn config() -> Vec<ConfigModule> {
    vec![
        section("general", vec![kv("modules", "clock power  heat ghost bare odd")]),
        section("clock", vec![kv("implements", "time"), kv("interval", "250"), kv("icon", "T"), kv("unixsignal", "34")]),
        section("power", vec![kv("implements", "battery")]),
        section("heat", vec![kv("implements", "cpu"), kv("startdelay", "75")]),
        section("bare", vec![kv("interval", "1")]),
        section("odd", vec![kv("implements", "weather")]),
    ]
}

#[test]
fn enabled_modules_are_planned_in_order() {
    let plans = plan(&config(), &kinds()).ok().unwrap();
    let summary: Vec<(String, Option<String>, Option<u8>, u64, u64, usize, usize)> = plans
        .iter()
        .map(|p| (p.name.clone(), p.icon.clone(), p.unixsignal, p.interval, p.startdelay, p.settings, p.kind))
        .collect();
    assert_eq!(
        summary,
        vec![
            ("time".to_string(), Some("T".to_string()), Some(34), 250, 0, 1, 0),
            ("battery".to_string(), None, None, 1000, 0, 2, 1),
            ("cpu".to_string(), None, None, 1000, 75, 3, 2),
        ]
    );
}

#[test]
fn modules_whose_sampler_cannot_be_made_are_left_out() {
    let mut loaded = init(&config(), &kinds()).ok().unwrap();
    let names: Vec<(String, u64, u64)> = loaded.iter().map(|m| (m.name.clone(), m.interval, m.startdelay)).collect();
    assert_eq!(names, vec![("time".to_string(), 250, 0), ("cpu".to_string(), 1000, 75)]);
    assert_eq!(loaded[0].icon, Some("T".to_string()));
    assert_eq!(loaded[0].unixsignal, Some(34));
    assert_eq!(loaded[0].module.run(0), Ok(Some("4 settings".to_string())));
    assert_eq!(loaded[1].module.run(0), Ok(Some("2 settings".to_string())));
}

#[test]
fn loading_fails_without_a_list_of_modules() {
    let none = vec![section("general", vec![kv("delim", " ")])];
    assert_eq!(
        init(&none, &kinds()).err(),
        Some("There are no modules to load - module [general] must contain a list of modules to enable.".to_string())
    );
    assert_eq!(
        init(&vec![], &kinds()).err(),
        Some("The config file is missing the [general] module.".to_string())
    );
    let empty = vec![section("general", vec![kv("modules", "  ")])];
    assert!(init(&empty, &kinds()).ok().unwrap().is_empty());
}

#[test]
fn loading_fails_on_a_malformed_number() {
    let bad = |key: &str| {
        vec![
            section("general", vec![kv("modules", "skipped clock")]),
            section("clock", vec![kv("implements", "time"), kv(key, "often")]),
        ]
    };
    assert_eq!(init(&bad("interval"), &kinds()).err(), Some("Invalid number in setting interval".to_string()));
    assert_eq!(init(&bad("startdelay"), &kinds()).err(), Some("Invalid number in setting startdelay".to_string()));
    assert_eq!(init(&bad("unixsignal"), &kinds()).err(), Some("Invalid number in setting unixsignal".to_string()));
    assert!(init(&bad("icon"), &kinds()).is_ok());
    let unused = vec![
        section("general", vec![kv("modules", "clock")]),
        section("clock", vec![kv("implements", "weather"), kv("interval", "often")]),
    ];
    assert!(init(&unused, &kinds()).ok().unwrap().is_empty());
}

#[test]
fn first_line_of_a_file() {
    assert_eq!(read_line("Charging\nmore\n"), Ok("Charging".to_string()));
    assert_eq!(read_line("Full"), Ok("Full".to_string()));
    assert_eq!(read_line("a b\r\nc"), Ok("a b".to_string()));
    assert_eq!(read_line("\nx"), Ok("".to_string()));
    assert_eq!(read_line("\r\nx"), Ok("".to_string()));
    assert_eq!(read_line("x\r"), Ok("x\r".to_string()));
    assert_eq!(read_line(""), Err("File parse error".to_string()));
}

#[test]
fn first_lines_agree_with_the_standard_library() {
    for s in ["a", "a\n", "a\r\n", "\r", "\r\n", "\n\n", "a\rb\nc", "\ra\r\r\nb"] {
        assert_eq!(read_line(s).ok(), s.lines().next().map(|l| l.to_string()));
    }
}

#[test]
fn first_field_is_read_as_a_value() {
    assert_eq!(read_line_as::<i64>("4500\n"), Ok(4500));
    assert_eq!(read_line_as::<i64>("-12 rest of line\nnext"), Ok(-12));
    assert_eq!(read_line_as::<u8>("300"), Err("Format error: invalid value".to_string()));
    assert_eq!(read_line_as::<i64>(" 5"), Err("Format error: invalid value".to_string()));
    assert_eq!(read_line_as::<i64>(""), Err("File parse error".to_string()));
    let uptime = read_line_as::<Decimal>("90061.25 123456.78\n").ok().unwrap();
    assert_eq!((uptime.mantissa(), uptime.scale()), (9006125, 2));
}

#[test]
fn battery_icons() {
    assert_eq!(battery::get_icon("Charging"), "🔌");
    assert_eq!(battery::get_icon("Full"), "✔️");
    assert_eq!(battery::get_icon("Not charging"), "✔️");
    assert_eq!(battery::get_icon("Discharging"), "🔋");
    assert_eq!(battery::get_icon("Unknown"), "?");
    assert_eq!(battery::get_icon(""), "?");
    assert_eq!(battery::default_format(), "%i %p%% (%w W %e)");
    assert_eq!(battery::default_est_time_format(), "%h:%M");
    assert_eq!(battery::no_estimate(), "--:--");
}

#[test]
fn bluetooth_events() {
    assert!(bluetooth::event_enables(&vec![0, 0, 0, 0, 2, 1, 0, 0]));
    assert!(!bluetooth::event_enables(&vec![0, 0, 0, 0, 1, 1, 0, 0]));
    assert!(!bluetooth::event_enables(&vec![0, 0, 0, 0, 2, 1, 1, 0]));
    assert!(!bluetooth::event_enables(&vec![0, 0, 0, 0, 2, 1, 0, 1]));
    assert!(!bluetooth::event_enables(&vec![0, 0, 0, 0, 2, 1, 0]));
    assert_eq!(bluetooth::status_text(true, "on"), Some("on".to_string()));
    assert_eq!(bluetooth::status_text(false, "on"), None);
    assert_eq!(bluetooth::default_enabled(), "enabled");
}

#[test]
fn network_addresses() {
    assert_eq!(network::ipv4_format(0x0100a8c0, 24), "192.168.0.1/24");
    assert_eq!(network::ipv4_format(0, 0), "0.0.0.0/0");
    assert_eq!(network::ipv4_format(u32::MAX, 32), "255.255.255.255/32");
    assert_eq!(network::addresses_text(&vec![]), None);
    assert_eq!(network::addresses_text(&vec![(0x0100a8c0, 24)]), Some("192.168.0.1/24".to_string()));
    assert_eq!(
        network::addresses_text(&vec![(0x0100a8c0, 24), (0x0100000a, 8), (0x0101a8c0, 16)]),
        Some("192.168.0.1/24 10.0.0.1/8 192.168.1.1/16".to_string())
    );
}

#[test]
fn uptime_text() {
    assert_eq!(uptime::default_format(), "%dd %Hh %Mm");
    assert_eq!(uptime::uptime_text("%dd %Hh %Mm", "90061.25 123456.78\n"), Ok(Some("1d 01h 01m".to_string())));
    assert_eq!(uptime::uptime_text("%s", "up"), Err("Format error: invalid value".to_string()));
    assert_eq!(uptime::uptime_text("%s", ""), Err("File parse error".to_string()));
}

#[test]
fn command_line_defaults() {
    let params = AppParams { backend: "x11".to_string(), verbose: false, noautoreload: false };
    assert!(params.autoreload());
    let quiet = AppParams { backend: "stdout".to_string(), verbose: true, noautoreload: true };
    assert!(!quiet.autoreload());
}

#[test]
fn planned_module_becomes_a_task_where_its_sampler_was_made() {
    let name: Vec<char> = "clock".chars().collect();
    let planned = plan_one(&config(), &kinds(), &name).ok().unwrap().unwrap();
    let mut made = loaded_module(&planned, Ok(Box::new(Fixed("now".to_string())))).unwrap();
    assert_eq!(made.name, "time");
    assert_eq!(made.icon, Some("T".to_string()));
    assert_eq!(made.unixsignal, Some(34));
    assert_eq!((made.interval, made.startdelay), (250, 0));
    assert_eq!(made.module.run(0), Ok(Some("now".to_string())));
    assert!(loaded_module(&planned, Err("no device".to_string())).is_none());
    let ghost: Vec<char> = "ghost".chars().collect();
    assert!(plan_one(&config(), &kinds(), &ghost).ok().unwrap().is_none());
}

#[test]
fn lines_and_words_of_a_file() {
    assert_eq!(lines_of("a b\r\n\n c\td \nlast"), vec!["a b", "", " c\td ", "last"]);
    assert!(lines_of("").is_empty());
    assert_eq!(lines_of("\n"), vec![""]);
    assert_eq!(words_of(" c\td  e "), vec!["c", "d", "e"]);
    assert!(words_of(" ").is_empty());
    for s in ["", "\n", "a", "a\n", "a\r\nb\r", "\r\n\r\n", "x\n\ny\n"] {
        let theirs: Vec<String> = s.lines().map(|l| l.to_string()).collect();
        assert_eq!(lines_of(s), theirs);
    }
}

#[test]
fn memory_report_lines() {
    assert_eq!(memory::reading("MemTotal:       16384256 kB"), Some((MemField::Total, "16384256".to_string())));
    assert_eq!(memory::reading("MemAvailable:\t9 kB"), Some((MemField::Available, "9".to_string())));
    assert_eq!(memory::reading("SwapTotal: x kB"), Some((MemField::SwapTotal, "x".to_string())));
    assert_eq!(memory::reading("SwapFree: 0 kB"), Some((MemField::SwapFree, "0".to_string())));
    assert_eq!(memory::reading("MemFree: 5 kB"), None);
    assert_eq!(memory::reading("MemTotal: 5"), None);
    assert_eq!(memory::reading("MemTotal: 5 kB more"), None);
    assert_eq!(memory::reading(""), None);
    assert_eq!(memory::default_format(), "%p%%/%s%%");
}

#[test]
fn processor_report_lines() {
    assert_eq!(cpu::frequency("cpu MHz\t\t: 3400.123"), Some("3400.123".to_string()));
    assert_eq!(cpu::frequency("cpu MHz : fast"), Some("fast".to_string()));
    assert_eq!(cpu::frequency("cpu MHz: 3400.123"), None);
    assert_eq!(cpu::frequency("cpu cores\t: 8"), None);
    assert_eq!(cpu::frequency("cpu GHz : 3"), None);
    assert_eq!(cpu::frequency(""), None);
    assert_eq!(cpu::default_format(), "%t°C %F MHz");
}

#[test]
fn module_tokens() {
    assert_eq!(backlight::token('c'), Some((backlight::Field::Current, None)));
    assert_eq!(backlight::token('u'), Some((backlight::Field::Share, Some("[d.01]"))));
    assert_eq!(backlight::token('m'), Some((backlight::Field::Max, None)));
    assert_eq!(backlight::token('x'), None);
    assert_eq!(backlight::default_format(), "%u%%");
    assert_eq!(battery::token('i'), Some((battery::Field::Icon, None)));
    assert_eq!(battery::token('p'), Some((battery::Field::Capacity, Some("[d.01]"))));
    assert_eq!(battery::token('w'), Some((battery::Field::Power, Some("[p1]"))));
    assert_eq!(battery::token('e'), Some((battery::Field::Estimate, None)));
    assert_eq!(battery::token('%'), None);
    assert_eq!(cpu::token('t'), Some((cpu::Field::Temperature, Some("[d1000 p1]"))));
    assert_eq!(cpu::token('F'), Some((cpu::Field::Highest, None)));
    assert_eq!(cpu::token('f'), Some((cpu::Field::Lowest, None)));
    assert_eq!(cpu::token('T'), None);
    let field = |swap: bool, used: bool, share: bool| memory::Field { swap, used, share };
    assert_eq!(memory::token('p'), Some((field(false, true, true), Some("[d.01]"))));
    assert_eq!(memory::token('P'), Some((field(false, false, true), Some("[d.01]"))));
    assert_eq!(memory::token('h'), Some((field(false, true, false), None)));
    assert_eq!(memory::token('H'), Some((field(false, false, false), None)));
    assert_eq!(memory::token('s'), Some((field(true, true, true), Some("[d.01]"))));
    assert_eq!(memory::token('S'), Some((field(true, false, true), Some("[d.01]"))));
    assert_eq!(memory::token('w'), Some((field(true, true, false), None)));
    assert_eq!(memory::token('W'), Some((field(true, false, false), None)));
    assert_eq!(memory::token('m'), None);
}

#[test]
fn microphone_and_time_defaults() {
    assert_eq!(microphone::default_active(), "active");
    assert_eq!(microphone::status_text(2, "rec"), Some("rec".to_string()));
    assert_eq!(microphone::status_text(0, "rec"), None);
    assert_eq!(time::default_format(), "%H:%M");
}

#[test]
fn time_is_written_under_a_template() {
    let at = 1431648000 + 13 * 3600 + 7 * 60 + 9;
    assert_eq!(time::time_text("%H:%M", at, 0, 0), Ok(Some("13:07".to_string())));
    assert_eq!(time::time_text("%H:%M", at, 0, 3600), Ok(Some("14:07".to_string())));
    assert_eq!(time::time_text("%Y-%m-%d %H:%M:%S%.3f", at, 250_000_000, -7200), Ok(Some("2015-05-15 11:07:09.250".to_string())));
    assert_eq!(time::time_text("plain", at, 0, 0), Ok(Some("plain".to_string())));
    assert_eq!(time::time_text("%Q", at, 0, 0), Err("Invalid time or time format".to_string()));
    assert_eq!(time::time_text("%H", i64::MAX, 0, 0), Err("Invalid time or time format".to_string()));
    assert_eq!(time::time_text("%H", at, 0, 86_400), Err("Invalid time or time format".to_string()));
    assert_eq!(time::shown_time(Some("now".to_string())), Ok(Some("now".to_string())));
    assert_eq!(time::shown_time(None), Err("Invalid time or time format".to_string()));
}
