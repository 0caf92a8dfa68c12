use blob_evolution::codec::{CONNECTION_RECORD_LEN, GENOME_BYTES_LEN, NEURON_RECORD_LEN};
use blob_evolution::genome::{Connection, NeuralNetwork, Neuron};
use blob_evolution::CONNECTIONS_N;

fn conn(from: Neuron, to: Neuron, weight: f32) -> Connection {
    Connection::new(from, to, weight.to_bits())
}

fn uniform(c: Connection) -> NeuralNetwork {
    NeuralNetwork { connections: [c; CONNECTIONS_N] }
}

#[test]
fn neuron_record_layout() {
    let b = Neuron::Intermediate(5).to_bytes();
    assert_eq!(b.len(), NEURON_RECORD_LEN);
    assert_eq!(b, vec![1, 0, 0, 0, 0, 0, 0, 0, 5, 0, 0, 0, 0, 0, 0, 0]);
    let b = Neuron::Output(0x0102).to_bytes();
    assert_eq!(b, vec![2, 0, 0, 0, 0, 0, 0, 0, 2, 1, 0, 0, 0, 0, 0, 0]);
    let b = Neuron::Input(0).to_bytes();
    assert_eq!(b, vec![0; 16]);
}

#[test]
fn connection_record_layout() {
    let c = conn(Neuron::Input(2), Neuron::Output(1), 1.0);
    let b = c.to_bytes();
    assert_eq!(b.len(), CONNECTION_RECORD_LEN);
    let mut expected = Neuron::Input(2).to_bytes();
    expected.extend(Neuron::Output(1).to_bytes());
    expected.extend([0x00, 0x00, 0x80, 0x3f, 0, 0, 0, 0]);
    assert_eq!(b, expected);
}

#[test]
fn genome_bytes_concatenate_records_in_order() {
    let a = conn(Neuron::Input(0), Neuron::Output(0), 1.0);
    let b = conn(Neuron::Intermediate(3), Neuron::Intermediate(4), -2.0);
    let mut connections = [a; CONNECTIONS_N];
    connections[5] = b;
    let g = NeuralNetwork { connections };
    let bytes = g.all_bytes();
    assert_eq!(bytes.len(), GENOME_BYTES_LEN);
    for i in 0..CONNECTIONS_N {
        let record = &bytes[i * CONNECTION_RECORD_LEN..(i + 1) * CONNECTION_RECORD_LEN];
        assert_eq!(record, connections[i].to_bytes().as_slice());
    }
}

#[test]
fn equal_genomes_encode_alike() {
    let c = conn(Neuron::Intermediate(1), Neuron::Output(2), 4.5);
    assert_eq!(uniform(c).all_bytes(), uniform(c).all_bytes());
    let g = NeuralNetwork::random([3; CONNECTIONS_N]);
    let h = g;
    assert_eq!(g.all_bytes(), h.all_bytes());
}

#[test]
fn single_connection_change_changes_encoding() {
    let base = conn(Neuron::Input(1), Neuron::Intermediate(2), 4.5);
    let g = uniform(base);
    let variants = [
        conn(Neuron::Input(1), Neuron::Intermediate(2), 4.25),
        conn(Neuron::Intermediate(1), Neuron::Intermediate(2), 4.5),
        conn(Neuron::Input(2), Neuron::Intermediate(2), 4.5),
        conn(Neuron::Input(1), Neuron::Output(2), 4.5),
        conn(Neuron::Input(1), Neuron::Intermediate(3), 4.5),
        Connection::new(Neuron::Input(1), Neuron::Intermediate(2), 4.5f32.to_bits() ^ 1),
    ];
    for v in variants {
        for pos in 0..CONNECTIONS_N {
            let mut connections = g.connections;
            connections[pos] = v;
            let h = NeuralNetwork { connections };
            assert_ne!(g.all_bytes(), h.all_bytes());
        }
    }
}

#[test]
fn connection_order_matters_to_encoding() {
    let a = conn(Neuron::Input(0), Neuron::Output(0), 1.0);
    let b = conn(Neuron::Input(1), Neuron::Output(1), 2.0);
    let mut first = [a; CONNECTIONS_N];
    first[0] = b;
    let mut second = [a; CONNECTIONS_N];
    second[1] = b;
    let g = NeuralNetwork { connections: first };
    let h = NeuralNetwork { connections: second };
    assert_ne!(g.all_bytes(), h.all_bytes());
}

#[test]
fn color_of_uniform_genome() {
    let g = uniform(conn(Neuron::Input(0), Neuron::Output(0), 1.0));
    assert_eq!(g.color(), (0, 0, 95));
    let h = uniform(conn(Neuron::Intermediate(9), Neuron::Intermediate(7), -10.0));
    assert_eq!(h.color(), (3, 2, 112));
}

#[test]
fn color_averages_connections() {
    let a = conn(Neuron::Input(0), Neuron::Output(0), 1.0);
    let b = conn(Neuron::Intermediate(9), Neuron::Intermediate(7), -10.0);
    let g = NeuralNetwork { connections: [a, b, a, b, a, b, a, b] };
    assert_eq!(g.color(), (1, 1, 103));
}

#[test]
fn color_is_pure() {
    for _ in 0..50 {
        let g = NeuralNetwork::random([(-6.5f32).to_bits(); CONNECTIONS_N]);
        let h = g;
        assert_eq!(g.color(), g.color());
        assert_eq!(g.color(), h.color());
    }
}

#[test]
fn color_of_zero_genome_is_black() {
    let g = uniform(conn(Neuron::Input(0), Neuron::Intermediate(0), 0.0));
    assert_eq!(g.color(), (0, 0, 0));
}
