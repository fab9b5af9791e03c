use cb_simulator_yew::simulation::{closed_loop, open_loop};

fn pt1_step(kp: f64, t1_time: f64, sample_time: f64) -> impl Fn(f64, f64) -> (f64, f64) {
    move |y_prev: f64, u: f64| {
        let y = y_prev + sample_time / (t1_time + sample_time) * (kp * u - y_prev);
        (y, y)
    }
}

#[test]
fn open_loop_pt1_step_response_rises_monotonically_towards_the_gain() {
    let setpoints = vec![1.0f64; 200];
    let pass_through = |c: u32, _y: f64, w: f64| (c, w);
    let (control, process) = open_loop(&setpoints, 0.0, 0.0, 0u32, pt1_step(1.0, 10.0, 1.0), pass_through);
    assert_eq!(control, setpoints);
    assert_eq!(process.len(), 200);
    assert!((process[0] - 1.0 / 11.0).abs() < 1e-12);
    for i in 1..process.len() {
        assert!(process[i] > process[i - 1]);
        assert!(process[i] <= 1.0);
    }
    assert!(process[199] > 0.999);
}

#[test]
fn open_loop_feeds_the_fixed_measurement_and_threads_state() {
    let setpoints = vec![1.0f64, 2.0, 3.0];
    // The controller counts its calls and reports measurement + 10 * setpoint + count.
    let update = |c: u32, y: f64, w: f64| (c + 1, y + 10.0 * w + c as f64);
    // The element accumulates its inputs.
    let transfer = |acc: f64, u: f64| (acc + u, acc + u);
    let (control, process) = open_loop(&setpoints, 0.5, 0.0, 0u32, transfer, update);
    assert_eq!(control, vec![10.5, 21.5, 32.5]);
    assert_eq!(process, vec![10.5, 32.0, 64.5]);
}

#[test]
fn closed_loop_delays_the_controller_by_one_sample() {
    let setpoints = vec![1.0f64, 2.0, 3.0, 4.0];
    // The controller outputs setpoint - measurement.
    let update = |c: (), y: f64, w: f64| (c, w - y);
    // The element doubles its input.
    let transfer = |e: (), u: f64| (e, 2.0 * u);
    let (control, process) = closed_loop(&setpoints, 0.0, (), (), transfer, update);
    // u[0] = 0; y[i] = 2 u[i]; u[i+1] = w[i] - y[i].
    assert_eq!(control, vec![0.0, 1.0, 0.0, 3.0]);
    assert_eq!(process, vec![0.0, 2.0, 0.0, 6.0]);
}

#[test]
fn closed_loop_threads_element_and_controller_state() {
    let setpoints = vec![5.0f64, 5.0, 5.0];
    let update = |calls: u32, y: f64, w: f64| (calls + 1, w - y + calls as f64);
    let transfer = |acc: f64, u: f64| (acc + u, acc + u);
    let (control, process) = closed_loop(&setpoints, 1.0, 0.0, 0u32, transfer, update);
    // y0 = 1; u1 = 5 - 1 + 0 = 4; y1 = 5; u2 = 5 - 5 + 1 = 1; y2 = 6.
    assert_eq!(control, vec![1.0, 4.0, 1.0]);
    assert_eq!(process, vec![1.0, 5.0, 6.0]);
}

#[test]
fn closed_loop_with_pt1_plant_settles_below_the_setpoint() {
    let setpoints = vec![1.0f64; 300];
    let proportional = |c: (), y: f64, w: f64| (c, 2.0 * (w - y));
    let (control, process) = closed_loop(&setpoints, 0.0, 0.0, (), pt1_step(1.0, 10.0, 1.0), proportional);
    assert_eq!(control[0], 0.0);
    assert_eq!(process[0], 0.0);
    // With gain 2 the steady state of a unit-gain lag is 2 / 3.
    assert!((process[299] - 2.0 / 3.0).abs() < 1e-6);
}

#[test]
fn drivers_on_an_empty_range_return_empty_sequences() {
    let setpoints: Vec<f64> = Vec::new();
    let transfer = |e: (), u: f64| (e, u);
    let update = |c: (), _y: f64, w: f64| (c, w);
    let (u, y) = open_loop(&setpoints, 0.0, (), (), transfer, update);
    assert!(u.is_empty() && y.is_empty());
    let (u, y) = closed_loop(&setpoints, 0.0, (), (), transfer, update);
    assert!(u.is_empty() && y.is_empty());
}

#[test]
fn closed_loop_with_one_sample_never_calls_the_controller() {
    let setpoints = vec![7.0f64];
    let transfer = |e: (), u: f64| (e, u + 1.0);
    let update = |_c: (), _y: f64, _w: f64| -> ((), f64) { panic!("controller called") };
    let (u, y) = closed_loop(&setpoints, 3.0, (), (), transfer, update);
    assert_eq!(u, vec![3.0]);
    assert_eq!(y, vec![4.0]);
}

#[test]
fn two_runs_from_the_same_states_agree() {
    let setpoints: Vec<f64> = (0..50).map(|i| if i < 10 { 0.0 } else { 1.0 }).collect();
    let pi = |integral: f64, y: f64, w: f64| {
        let e = w - y;
        let integral = integral + e;
        (integral, 0.8 * e + 0.1 * integral)
    };
    let first = closed_loop(&setpoints, 0.0, 0.0, 0.0, pt1_step(2.0, 5.0, 1.0), pi);
    let second = closed_loop(&setpoints, 0.0, 0.0, 0.0, pt1_step(2.0, 5.0, 1.0), pi);
    assert_eq!(first, second);
    let first = open_loop(&setpoints, 0.0, 0.0, 0.0, pt1_step(2.0, 5.0, 1.0), pi);
    let second = open_loop(&setpoints, 0.0, 0.0, 0.0, pt1_step(2.0, 5.0, 1.0), pi);
    assert_eq!(first, second);
}
