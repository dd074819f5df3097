use plugin_api::{Plugin, PluginError, Registry};

/// A plugin that fails every command with a message that tells who was called,
/// for what and with which arguments.
struct Reporter {
    name: &'static str,
    commands: Vec<&'static str>,
}

impl Reporter {
    fn boxed(name: &'static str, commands: &[&'static str]) -> Box<dyn Plugin> {
        Box::new(Reporter { name, commands: commands.to_vec() })
    }
}

impl Plugin for Reporter {
    fn name(&self) -> &'static str {
        self.name
    }

    fn commands(&self) -> Vec<&'static str> {
        self.commands.clone()
    }

    fn execute(&self, command: &str, args: &[String]) -> anyhow::Result<()> {
        Err(anyhow::Error::msg(format!("{} ran {} with [{}]", self.name, command, args.join(","))))
    }
}

/// A plugin that succeeds at every command.
struct Quiet;

impl Plugin for Quiet {
    fn name(&self) -> &'static str {
        "quiet"
    }

    fn commands(&self) -> Vec<&'static str> {
        vec!["hush"]
    }

    fn execute(&self, _command: &str, _args: &[String]) -> anyhow::Result<()> {
        Ok(())
    }
}

fn create_quiet() -> Box<dyn Plugin> {
    Box::new(Quiet)
}

fn create_reporter() -> Box<dyn Plugin> {
    Reporter::boxed("made", &["make"])
}

/// What the plugin that owns `command` reports when it is dispatched.
fn report(registry: &Registry, command: &str, args: &[String]) -> String {
    match registry.dispatch(command, args) {
        Ok(Err(error)) => error.to_string(),
        Ok(Ok(())) => panic!("the plugin reported nothing"),
        Err(error) => panic!("no plugin was called: {}", error.to_string()),
    }
}

fn not_found_detail(error: PluginError) -> String {
    match error {
        PluginError::CommandNotFound(detail) => detail,
        PluginError::LoadError(detail) => panic!("a load error: {}", detail),
    }
}

#[test]
fn a_new_registry_has_no_plugins_and_no_commands() {
    let registry = Registry::new();
    assert_eq!(registry.len(), 0);
    assert!(registry.lookup("x").is_err());
    assert!(registry.lookup("").is_err());
    match registry.dispatch("x", &[]) {
        Err(error) => assert_eq!(error.to_string(), "Command not found: x"),
        Ok(_) => panic!("an empty registry dispatched a command"),
    }
}

#[test]
fn dispatch_routes_each_command_to_its_plugin() {
    let mut registry = Registry::new();
    registry.register(Reporter::boxed("A", &["x"]));
    registry.register(Reporter::boxed("B", &["y"]));
    assert_eq!(registry.len(), 2);
    assert_eq!(report(&registry, "x", &[]), "A ran x with []");
    assert_eq!(report(&registry, "y", &[]), "B ran y with []");
    match registry.dispatch("z", &[]) {
        Err(error) => assert_eq!(not_found_detail(error), "z"),
        Ok(_) => panic!("a command without owner was dispatched"),
    }
}

#[test]
fn lookup_finds_the_owner_or_names_the_command() {
    let mut registry = Registry::new();
    registry.register(Reporter::boxed("A", &["x"]));
    registry.register(Reporter::boxed("B", &["y"]));
    assert_eq!(registry.lookup("x").ok().map(|plugin| plugin.name()), Some("A"));
    assert_eq!(registry.lookup("y").ok().map(|plugin| plugin.name()), Some("B"));
    match registry.lookup("z") {
        Err(error) => {
            assert_eq!(error.to_string(), "Command not found: z");
            assert_eq!(not_found_detail(error), "z");
        },
        Ok(_) => panic!("a command without owner was found"),
    }
}

#[test]
fn dispatch_hands_command_and_arguments_to_the_plugin_as_they_are() {
    let mut registry = Registry::new();
    registry.register(Reporter::boxed("A", &["x", "x2"]));
    let args = vec!["--flag".to_string(), "".to_string(), "a b".to_string()];
    assert_eq!(report(&registry, "x2", &args), "A ran x2 with [--flag,,a b]");
}

#[test]
fn dispatch_hands_back_what_the_plugin_returned() {
    let mut registry = Registry::new();
    registry.register(Box::new(Quiet));
    registry.register(Reporter::boxed("loud", &["shout"]));
    assert!(matches!(registry.dispatch("hush", &[]), Ok(Ok(()))));
    match registry.dispatch("shout", &[]) {
        Ok(Err(error)) => assert_eq!(error.to_string(), "loud ran shout with []"),
        _ => panic!("the failure of the plugin was not handed back"),
    }
}

#[test]
fn a_failure_of_the_plugin_is_not_a_command_not_found() {
    let mut registry = Registry::new();
    registry.register(Reporter::boxed("A", &["x"]));
    for command in ["x"] {
        assert!(registry.dispatch(command, &[]).is_ok());
    }
}

#[test]
fn the_first_plugin_to_advertise_a_command_owns_it() {
    let mut registry = Registry::new();
    registry.register(Reporter::boxed("first", &["shared", "one"]));
    registry.register(Reporter::boxed("second", &["two", "shared"]));
    assert_eq!(report(&registry, "shared", &[]), "first ran shared with []");
    assert_eq!(report(&registry, "one", &[]), "first ran one with []");
    assert_eq!(report(&registry, "two", &[]), "second ran two with []");
    assert_eq!(registry.len(), 2);
}

#[test]
fn a_command_advertised_twice_by_one_plugin_is_owned_once() {
    let mut registry = Registry::new();
    registry.register(Reporter::boxed("twice", &["again", "again"]));
    assert_eq!(report(&registry, "again", &[]), "twice ran again with []");
    assert_eq!(registry.len(), 1);
}

#[test]
fn a_plugin_without_commands_is_registered_and_unreachable() {
    let mut registry = Registry::new();
    registry.register(Reporter::boxed("mute", &[]));
    registry.register(Reporter::boxed("A", &["x"]));
    assert_eq!(registry.len(), 2);
    assert_eq!(report(&registry, "x", &[]), "A ran x with []");
    assert!(registry.dispatch("mute", &[]).is_err());
}

#[test]
fn command_names_are_compared_exactly() {
    let mut registry = Registry::new();
    registry.register(Reporter::boxed("A", &["build"]));
    assert!(registry.lookup("build").is_ok());
    assert!(registry.lookup("Build").is_err());
    assert!(registry.lookup("build ").is_err());
    assert!(registry.lookup("buil").is_err());
    assert!(registry.lookup("").is_err());
}

#[test]
fn register_as_gives_the_plugin_the_commands_it_is_given() {
    let mut registry = Registry::new();
    registry.register_as(Reporter::boxed("A", &["x"]), vec!["alias"]);
    registry.register_as(Reporter::boxed("B", &["y"]), vec!["alias", "other"]);
    assert_eq!(registry.len(), 2);
    assert_eq!(report(&registry, "alias", &[]), "A ran alias with []");
    assert_eq!(report(&registry, "other", &[]), "B ran other with []");
    assert!(registry.lookup("x").is_err());
    assert!(registry.lookup("y").is_err());
}

#[test]
fn load_skips_the_attempts_that_failed() {
    let attempts = vec![
        Err(PluginError::LoadError("one.so".to_string())),
        Ok(Reporter::boxed("A", &["x", "shared"])),
        Err(PluginError::LoadError("two.so".to_string())),
        Ok(Reporter::boxed("B", &["shared", "y"])),
    ];
    let (registry, failures) = Registry::load(attempts);
    assert_eq!(registry.len(), 2);
    let messages: Vec<String> = failures.iter().map(|error| error.to_string()).collect();
    assert_eq!(messages, vec!["Failed to load plugin: one.so", "Failed to load plugin: two.so"]);
    assert_eq!(report(&registry, "x", &[]), "A ran x with []");
    assert_eq!(report(&registry, "shared", &[]), "A ran shared with []");
    assert_eq!(report(&registry, "y", &[]), "B ran y with []");
    assert!(registry.dispatch("one.so", &[]).is_err());
}

#[test]
fn load_of_nothing_gives_an_empty_registry() {
    let (registry, failures) = Registry::load(Vec::new());
    assert_eq!(registry.len(), 0);
    assert!(failures.is_empty());
}

#[test]
fn load_where_every_attempt_failed_gives_an_empty_registry() {
    let attempts = vec![
        Err(PluginError::LoadError("a".to_string())),
        Err(PluginError::LoadError("b".to_string())),
    ];
    let (registry, failures) = Registry::load(attempts);
    assert_eq!(registry.len(), 0);
    assert_eq!(failures.len(), 2);
    assert!(registry.lookup("a").is_err());
}

#[test]
fn load_agrees_with_registering_one_by_one() {
    let (loaded, failures) = Registry::load(vec![
        Ok(Reporter::boxed("A", &["x", "z"])),
        Ok(Reporter::boxed("B", &["y", "z"])),
    ]);
    assert!(failures.is_empty());
    let mut built = Registry::new();
    built.register(Reporter::boxed("A", &["x", "z"]));
    built.register(Reporter::boxed("B", &["y", "z"]));
    for command in ["x", "y", "z"] {
        assert_eq!(report(&loaded, command, &[]), report(&built, command, &[]));
    }
    assert_eq!(loaded.len(), built.len());
    assert!(loaded.lookup("w").is_err());
    assert!(built.lookup("w").is_err());
}

#[test]
fn a_factory_gives_a_new_instance_at_every_call() {
    let first = create_reporter();
    let second = create_reporter();
    assert!(!std::ptr::eq(first.as_ref(), second.as_ref()));
    assert_eq!(first.name(), "made");
    drop(first);
    assert_eq!(second.name(), "made");
    assert_eq!(second.commands(), vec!["make"]);

    let mut registry = Registry::new();
    registry.register(create_quiet());
    registry.register(create_quiet());
    registry.register(second);
    assert_eq!(registry.len(), 3);
    assert!(matches!(registry.dispatch("hush", &[]), Ok(Ok(()))));
    assert_eq!(report(&registry, "make", &[]), "made ran make with []");
}
