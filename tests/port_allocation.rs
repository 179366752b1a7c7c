use workbench::ports::{
    allocate_ports, choose_port, find_available_port, PortConfig, N8N_BASE_PORT, OLLAMA_BASE_PORT,
    PORT_RANGE_SPAN,
};

#[test]
fn first_free_port_is_chosen() {
    assert_eq!(find_available_port(100, 104, &vec![false, false, true, true, false]), Some(102));
    assert_eq!(find_available_port(100, 104, &vec![false; 5]), None);
    assert_eq!(find_available_port(100, 104, &vec![false, false]), None);
    assert_eq!(find_available_port(100, 101, &vec![false, false, true]), None);
    assert_eq!(find_available_port(105, 104, &vec![true]), None);
    assert_eq!(find_available_port(65535, 65535, &vec![true]), Some(65535));
}

#[test]
fn fallback_is_range_start() {
    assert_eq!(choose_port(200, 210, &vec![false; 11]), 200);
    assert_eq!(choose_port(200, 210, &vec![false, true]), 201);
}

#[test]
fn allocation_of_both_ranges() {
    let mut n8n = vec![false; 21];
    n8n[3] = true;
    let ollama = vec![false; 21];
    assert_eq!(
        allocate_ports(&n8n, &ollama),
        PortConfig { n8n_port: 5681, ollama_port: 11434 }
    );
    assert_eq!(N8N_BASE_PORT + PORT_RANGE_SPAN, 5698);
    assert_eq!(OLLAMA_BASE_PORT + PORT_RANGE_SPAN, 11454);
}

#[test]
fn allocated_port_was_found_free() {
    let n8n: Vec<bool> = (0..21).map(|i| i % 4 == 2).collect();
    let ollama: Vec<bool> = (0..21).map(|i| i >= 7).collect();
    let cfg = allocate_ports(&n8n, &ollama);
    assert!(n8n[(cfg.n8n_port - N8N_BASE_PORT) as usize]);
    assert!(ollama[(cfg.ollama_port - OLLAMA_BASE_PORT) as usize]);
    assert_eq!(cfg, PortConfig { n8n_port: 5680, ollama_port: 11441 });
}
