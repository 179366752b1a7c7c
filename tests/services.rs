use workbench::launcher::{
    check_n8n_health, get_ollama_status, n8n_command, n8n_environment, n8n_launch_args, service_url,
    LaunchPlan, ProcessTable, Service, ServiceError,
};
use workbench::ports::allocate_ports;

#[test]
fn relaunch_keeps_one_handle() {
    let mut t: ProcessTable<u32> = ProcessTable::new();
    assert!(t.register("n8n".to_string(), 1).is_ok());
    match t.register("n8n".to_string(), 2) {
        Err((e, h)) => {
            assert_eq!(e, ServiceError::AlreadyRunning);
            assert_eq!(h, 2);
        }
        Ok(()) => panic!("second registration accepted"),
    }
    assert!(t.is_running("n8n"));
    assert_eq!(t.take("n8n"), Some(1));
    assert_eq!(t.take("n8n"), None);
}

#[test]
fn stop_without_handle_succeeds() {
    let mut t: ProcessTable<u32> = ProcessTable::new();
    assert_eq!(t.stop("ollama"), Ok(None));
    assert!(t.register("ollama".to_string(), 9).is_ok());
    assert_eq!(t.stop("ollama"), Ok(Some(9)));
    assert_eq!(t.stop("ollama"), Ok(None));
    assert!(!t.is_running("ollama"));
}

#[test]
fn names_are_kept_apart() {
    let mut t: ProcessTable<u32> = ProcessTable::new();
    assert!(t.register("n8n".to_string(), 1).is_ok());
    assert!(t.register("ollama".to_string(), 2).is_ok());
    assert!(t.register("n8n2".to_string(), 3).is_ok());
    assert_eq!(t.stop("n8n"), Ok(Some(1)));
    assert!(t.is_running("ollama"));
    assert!(t.is_running("n8n2"));
    assert!(!t.is_running("n8n"));
}

#[test]
fn launch_decisions() {
    let mut t: ProcessTable<u32> = ProcessTable::new();
    assert_eq!(
        t.plan_launch("n8n", false, false),
        LaunchPlan::Proceed { stop_previous: false, free_port_first: false }
    );
    assert_eq!(
        t.plan_launch("n8n", false, true),
        LaunchPlan::Proceed { stop_previous: false, free_port_first: true }
    );
    assert!(t.register("n8n".to_string(), 1).is_ok());
    assert_eq!(t.plan_launch("n8n", false, true), LaunchPlan::Refuse);
    assert_eq!(
        t.plan_launch("n8n", true, true),
        LaunchPlan::Proceed { stop_previous: true, free_port_first: true }
    );
}

#[test]
fn health_messages() {
    assert_eq!(service_url(5678), "http://127.0.0.1:5678");
    assert_eq!(
        check_n8n_health(5678, true),
        Ok("✅ n8n is reachable at http://127.0.0.1:5678".to_string())
    );
    assert_eq!(
        check_n8n_health(5680, false),
        Err("❌ n8n not responding at http://127.0.0.1:5680".to_string())
    );
    assert_eq!(
        get_ollama_status(11434, true),
        Ok("✅ Ollama is running on http://127.0.0.1:11434".to_string())
    );
    assert_eq!(
        get_ollama_status(11435, false),
        Err("❌ Ollama not running on http://127.0.0.1:11435".to_string())
    );
}

#[test]
fn workflow_runtime_command() {
    assert_eq!(n8n_command(true, true), ("n8n".to_string(), vec!["start".to_string()]));
    assert_eq!(
        n8n_command(false, true),
        ("npx".to_string(), vec!["--yes".to_string(), "n8n".to_string(), "start".to_string()])
    );
    assert_eq!(
        n8n_command(false, false),
        ("npx".to_string(), vec!["n8n".to_string(), "start".to_string()])
    );
    assert_eq!(
        n8n_launch_args(vec!["start".to_string()], 5679),
        vec!["start".to_string(), "--port".to_string(), "5679".to_string()]
    );
}

#[test]
fn workflow_runtime_environment() {
    let env: Vec<(String, String)> =
        n8n_environment(11440).into_iter().map(|e| (e.name, e.value)).collect();
    assert_eq!(env.len(), 5);
    assert_eq!(env[0], ("OLLAMA_API_URL".to_string(), "http://127.0.0.1:11440".to_string()));
    assert_eq!(env[1], ("DB_SQLITE_POOL_SIZE".to_string(), "2".to_string()));
    assert_eq!(env[2], ("N8N_RUNNERS_ENABLED".to_string(), "true".to_string()));
    assert_eq!(env[3], ("N8N_BLOCK_ENV_ACCESS_IN_NODE".to_string(), "false".to_string()));
    assert_eq!(env[4], ("N8N_GIT_NODE_DISABLE_BARE_REPOS".to_string(), "true".to_string()));
}

#[test]
fn service_identities() {
    assert_eq!(Service::Workflow.name(), "n8n");
    assert_eq!(Service::ModelServer.name(), "ollama");
    assert_eq!(Service::Workflow.component(), "Agentic Platform (n8n)");
    assert_eq!(Service::ModelServer.default_port(), 11434);
    assert_eq!(Service::Workflow.port_or_default(None), 5678);
    assert_eq!(Service::Workflow.port_or_default(Some(5690)), 5690);
    assert_eq!(Service::Workflow.stop_message(true), "🛑 n8n stopped.");
    assert_eq!(Service::ModelServer.stop_message(false), "ℹ Ollama server was not running.");
}

#[test]
fn allocate_launch_check_stop_check() {
    let ports = allocate_ports(&vec![true; 21], &vec![true; 21]);
    assert_ne!(ports.n8n_port, ports.ollama_port);
    assert_eq!(ports.n8n_port, 5678);
    let mut t: ProcessTable<u32> = ProcessTable::new();
    let plan = t.plan_launch("n8n", false, false);
    assert_eq!(plan, LaunchPlan::Proceed { stop_previous: false, free_port_first: false });
    assert!(t.register("n8n".to_string(), 4242).is_ok());
    assert!(check_n8n_health(ports.n8n_port, true).is_ok());
    assert_eq!(t.stop("n8n"), Ok(Some(4242)));
    assert!(check_n8n_health(ports.n8n_port, false).is_err());
    assert!(!t.is_running("n8n"));
}

#[test]
fn model_server_environment() {
    let env = workbench::launcher::ollama_environment(11436);
    assert_eq!(env.len(), 1);
    assert_eq!(env[0].name, "OLLAMA_HOST");
    assert_eq!(env[0].value, "127.0.0.1:11436");
}
