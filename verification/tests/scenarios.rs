//! End-to-end calls whose requests and responses travel through byte buffers,
//! as the frames that the library writes and reads.
use rusty_procedure_call::frame::{encode_frame, split_frame};
use serde::de::DeserializeOwned;
use serde::Serialize;

/// Sends one request frame through `serve` and reads the response frame back,
/// as a generated client method does.
fn call<Req: Serialize, Res: DeserializeOwned>(serve: &mut dyn FnMut(&[u8]) -> Vec<u8>, request: &Req) -> Res {
    let value = postcard::to_allocvec(request).unwrap();
    let response = serve(&encode_frame(&value));
    let (payload, used) = split_frame(&response).unwrap();
    assert_eq!(used, response.len());
    postcard::from_bytes(&payload).unwrap()
}

/// Reads one request frame, as a generated `serve` does: the variant index of
/// the request enum comes first in its encoding.
fn read_request(request: &[u8]) -> (u32, Vec<u8>) {
    let (payload, used) = split_frame(request).unwrap();
    assert_eq!(used, request.len());
    let (variant, rest): (u32, &[u8]) = postcard::take_from_bytes(&payload).unwrap();
    (variant, rest.to_vec())
}

fn respond<T: Serialize>(res: &T) -> Vec<u8> {
    encode_frame(&postcard::to_allocvec(res).unwrap())
}

struct Server {
    value: u128,
}

impl Server {
    fn add_one(&mut self) {
        self.value += 1;
    }

    fn get_value(&self) -> u128 {
        self.value
    }

    fn serve(&mut self, request: &[u8]) -> Vec<u8> {
        match read_request(request).0 {
            0 => respond(&self.add_one()),
            1 => respond(&self.get_value()),
            _ => panic!("unknown request"),
        }
    }
}

#[test]
fn example() {
    let mut me = Server { value: 0 };
    let mut serve = |req: &[u8]| me.serve(req);
    let max = 100;
    for _ in 0..max {
        let () = call(&mut serve, &0u32);
    }
    let res: u128 = call(&mut serve, &1u32);
    assert_eq!(max, res)
}

struct PortHolder {
    port: u64,
}

impl PortHolder {
    fn my_port(&self) -> u64 {
        self.port
    }

    fn plus_one(&mut self) {
        self.port += 1;
    }

    fn serve(&mut self, request: &[u8]) -> Vec<u8> {
        match read_request(request).0 {
            0 => respond(&self.my_port()),
            1 => respond(&self.plus_one()),
            _ => panic!("unknown request"),
        }
    }
}

const PORTS: [u64; 11] = [8080, 8081, 8082, 8083, 8084, 8085, 8086, 8087, 8088, 8089, 8090];

#[test]
fn sum_ports() {
    let sum = PORTS.into_iter().sum::<u64>();
    let total: u64 = PORTS
        .into_iter()
        .map(|port| {
            let mut me = PortHolder { port };
            let mut serve = |req: &[u8]| me.serve(req);
            call::<u32, u64>(&mut serve, &0u32)
        })
        .sum();
    assert_eq!(sum, total)
}

#[test]
fn sum_ports_plus_one() {
    let sum = PORTS.into_iter().map(|p| p + 1).sum::<u64>();
    let total: u64 = PORTS
        .into_iter()
        .map(|port| {
            let mut me = PortHolder { port };
            let mut serve = |req: &[u8]| me.serve(req);
            let () = call(&mut serve, &1u32);
            call::<u32, u64>(&mut serve, &0u32)
        })
        .sum();
    assert_eq!(sum, total)
}

#[test]
fn arguments_travel_in_the_request() {
    // `add_to_me(&mut self, i: usize) -> usize`: variant 1 of the request enum carries `i`.
    let mut value: u64 = 0;
    let mut serve = |req: &[u8]| {
        let (variant, rest) = read_request(req);
        assert_eq!(variant, 1);
        let i: u64 = postcard::from_bytes(&rest).unwrap();
        value += i;
        respond(&value)
    };
    let a: u64 = call(&mut serve, &(1u32, 10u64));
    let b: u64 = call(&mut serve, &(1u32, 10u64));
    assert_eq!((a, b), (10, 20));
}
