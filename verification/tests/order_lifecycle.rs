use statemachine::sm::builder::StateMachineBuilder;
use statemachine::sm::listener::StateMachineListener;
use statemachine::sm::msg::{EventId, MessageBuilder};
use statemachine::sm::state::{State, StateId};
use statemachine::sm::trans::{Action, Guard, StateContext, Transition};
use statemachine::sm::StateMachine;

#[derive(PartialEq, Eq, Hash, Debug, Clone, Copy)]
enum OrderState {
    I,
    P,
    S,
    F,
}

impl StateId for OrderState {}

#[derive(PartialEq, Eq, Hash, Debug, Clone, Copy)]
enum OrderEvent {
    Submit,
    Payment,
    Timeout,
}

impl EventId for OrderEvent {}

struct Submit;

impl Action<OrderState, OrderEvent> for Submit {
    fn run(&self, ctx: &StateContext<OrderState, OrderEvent>) -> Result<(), String> {
        println!(
            "--- s: {:?}, t: {:?} submit!",
            ctx.tran().source().id(),
            ctx.tran().target().id()
        );
        if ctx.message().headers().is_some() {
            println!("with headers")
        } else {
            println!("none header!")
        }
        Ok(())
    }
}

struct Pay;

impl Action<OrderState, OrderEvent> for Pay {
    fn run(&self, ctx: &StateContext<OrderState, OrderEvent>) -> Result<(), String> {
        println!(
            "---- s: {:?}, t: {:?} pay! ----",
            ctx.tran().source().id(),
            ctx.tran().target().id()
        );
        if ctx.message().headers().is_some() {
            println!("nsk1: {:?}", ctx.message().get_header("nsk1"));
        } else {
            println!("none header!");
        }
        Ok(())
    }
}

struct Expire;

impl Action<OrderState, OrderEvent> for Expire {
    fn run(&self, ctx: &StateContext<OrderState, OrderEvent>) -> Result<(), String> {
        println!(
            "----- s: {:?}, t: {:?} timeout! -----",
            ctx.tran().source().id(),
            ctx.tran().target().id()
        );
        Ok(())
    }
}

struct Approved;

impl Guard<OrderState, OrderEvent> for Approved {
    fn check(&self, ctx: &StateContext<OrderState, OrderEvent>) -> Result<bool, String> {
        if let Some(hres) = ctx.message().get_header("hres") {
            Ok(hres.to_string() == "ok")
        } else {
            Ok(false)
        }
    }
}

struct PaymentStateMachineListener {}

impl PaymentStateMachineListener {
    fn new() -> PaymentStateMachineListener {
        PaymentStateMachineListener {}
    }
}

impl StateMachineListener<OrderState, OrderEvent> for PaymentStateMachineListener {
    fn transion(&self, tran: &Transition<OrderState, OrderEvent>) {
        println!(
            "listener sm tran: s: {:?}, t: {:?}, e: {:?}",
            tran.source(),
            tran.target(),
            tran.event()
        )
    }
}

fn submit() -> Option<Box<dyn Action<OrderState, OrderEvent>>> {
    Some(Box::new(Submit))
}

fn pay() -> Option<Box<dyn Action<OrderState, OrderEvent>>> {
    Some(Box::new(Pay))
}

fn err() -> Option<Box<dyn Action<OrderState, OrderEvent>>> {
    Some(Box::new(Expire))
}

fn approved() -> Option<Box<dyn Guard<OrderState, OrderEvent>>> {
    Some(Box::new(Approved))
}

fn init_sm() -> StateMachine<OrderState, OrderEvent> {
    let mut sm = StateMachineBuilder::new()
        .config()
        .init(State::new(OrderState::I))
        .trans()
        .source(State::new(OrderState::I))
        .target(State::new(OrderState::P))
        .event(OrderEvent::Submit)
        .action(submit())
        .guard(None)
        .and()
        .source(State::new(OrderState::P))
        .target(State::new(OrderState::S))
        .event(OrderEvent::Payment)
        .action(pay())
        .guard(approved())
        .and()
        .source(State::new(OrderState::P))
        .target(State::new(OrderState::F))
        .event(OrderEvent::Timeout)
        .action(err())
        .guard(None)
        .done()
        .end(State::new(OrderState::S))
        .build();
    sm.add_listener(Box::new(PaymentStateMachineListener::new()));
    sm
}

// The same machine without any guard: every payment is accepted.
fn init_unguarded_sm() -> StateMachine<OrderState, OrderEvent> {
    StateMachineBuilder::new()
        .config()
        .init(State::new(OrderState::I))
        .trans()
        .source(State::new(OrderState::I))
        .target(State::new(OrderState::P))
        .event(OrderEvent::Submit)
        .action(submit())
        .guard(None)
        .and()
        .source(State::new(OrderState::P))
        .target(State::new(OrderState::S))
        .event(OrderEvent::Payment)
        .action(pay())
        .guard(None)
        .and()
        .source(State::new(OrderState::P))
        .target(State::new(OrderState::F))
        .event(OrderEvent::Timeout)
        .action(err())
        .guard(None)
        .done()
        .end(State::new(OrderState::S))
        .build()
}

#[test]
fn build() {
    let sm: StateMachine<OrderState, OrderEvent> = init_sm();
    let si = State::new(OrderState::I);
    assert!(sm.initial_state().eq(&si));
    assert!(sm.get_state().eq(&si));
    assert_eq!(sm.all_trans().len(), 3);
}

#[test]
fn send_event_normal() {
    let mut sm = init_sm();
    assert_eq!(
        sm.send_event(
            &MessageBuilder::new()
                .payload(OrderEvent::Submit)
                .add_header("nsk1".to_string(), "nsv1".to_string())
                .build()
        ),
        true
    );
    assert_eq!(
        sm.send_event(&MessageBuilder::new().payload(OrderEvent::Submit).build()),
        false
    );
    assert_eq!(
        sm.send_event(
            &MessageBuilder::new()
                .payload(OrderEvent::Payment)
                .add_header("npk1".to_string(), "npv1".to_string())
                .build()
        ),
        false
    );
    assert_eq!(
        sm.send_event(
            &MessageBuilder::new()
                .payload(OrderEvent::Payment)
                .add_header("npk1".to_string(), "npv1".to_string())
                .add_header("hres".to_string(), "ook".to_string())
                .build()
        ),
        false
    );
    assert_eq!(
        sm.send_event(
            &MessageBuilder::new()
                .payload(OrderEvent::Payment)
                .add_header("npk1".to_string(), "npv1".to_string())
                .add_header("hres".to_string(), "ok".to_string())
                .build()
        ),
        true
    );
    assert_eq!(sm.is_running(), false);
    assert_eq!(sm.get_state(), &State::new(OrderState::S));
    assert_eq!(
        sm.send_event(&MessageBuilder::new().payload(OrderEvent::Payment).build()),
        false
    );
    assert_eq!(
        sm.send_event(&MessageBuilder::new().payload(OrderEvent::Timeout).build()),
        false
    );
}

#[test]
fn send_event_timeout() {
    let mut sm = init_sm();
    assert_eq!(
        sm.send_event(
            &MessageBuilder::new()
                .payload(OrderEvent::Submit)
                .add_header("tpk1".to_string(), "tpv1".to_string())
                .build()
        ),
        true
    );
    assert_eq!(
        sm.send_event(&MessageBuilder::new().payload(OrderEvent::Submit).build()),
        false
    );
    assert_eq!(
        sm.send_event(
            &MessageBuilder::new()
                .payload(OrderEvent::Timeout)
                .add_header("tpk1".to_string(), "tpv1".to_string())
                .build()
        ),
        true
    );
    assert_eq!(sm.is_running(), true);
    assert_eq!(sm.get_state(), &State::new(OrderState::F));
    assert_eq!(
        sm.send_event(&MessageBuilder::new().payload(OrderEvent::Timeout).build()),
        false
    );
    assert_eq!(
        sm.send_event(&MessageBuilder::new().payload(OrderEvent::Payment).build()),
        false
    );
}

#[test]
fn sm_build() {
    let sm: StateMachine<OrderState, OrderEvent> = init_unguarded_sm();
    let si = State::new(OrderState::I);
    assert!(sm.initial_state().eq(&si));
    assert!(sm.get_state().eq(&si));
    assert_eq!(sm.all_trans().len(), 3);
}

#[test]
fn sm_send_event_normal() {
    let mut sm = init_unguarded_sm();
    assert_eq!(
        sm.send_event(
            &MessageBuilder::new()
                .payload(OrderEvent::Submit)
                .add_header("nsk1".to_string(), "nsv1".to_string())
                .build()
        ),
        true
    );
    assert_eq!(
        sm.send_event(&MessageBuilder::new().payload(OrderEvent::Submit).build()),
        false
    );
    assert_eq!(
        sm.send_event(
            &MessageBuilder::new()
                .payload(OrderEvent::Payment)
                .add_header("npk1".to_string(), "npv1".to_string())
                .build()
        ),
        true
    );
    assert_eq!(sm.is_running(), false);
    assert_eq!(sm.get_state(), &State::new(OrderState::S));
    assert_eq!(
        sm.send_event(&MessageBuilder::new().payload(OrderEvent::Payment).build()),
        false
    );
    assert_eq!(
        sm.send_event(&MessageBuilder::new().payload(OrderEvent::Timeout).build()),
        false
    );
}

#[test]
fn sm_send_event_timeout() {
    let mut sm = init_unguarded_sm();
    assert_eq!(
        sm.send_event(
            &MessageBuilder::new()
                .payload(OrderEvent::Submit)
                .add_header("tpk1".to_string(), "tpv1".to_string())
                .build()
        ),
        true
    );
    assert_eq!(
        sm.send_event(&MessageBuilder::new().payload(OrderEvent::Submit).build()),
        false
    );
    assert_eq!(
        sm.send_event(
            &MessageBuilder::new()
                .payload(OrderEvent::Timeout)
                .add_header("tpk1".to_string(), "tpv1".to_string())
                .build()
        ),
        true
    );
    assert_eq!(sm.is_running(), true);
    assert_eq!(sm.get_state(), &State::new(OrderState::F));
    assert_eq!(
        sm.send_event(&MessageBuilder::new().payload(OrderEvent::Timeout).build()),
        false
    );
    assert_eq!(
        sm.send_event(&MessageBuilder::new().payload(OrderEvent::Payment).build()),
        false
    );
}
