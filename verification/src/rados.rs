//! The connection handle and the way a session is brought up.

use crate::errors::{Error, ErrorView};
use crate::native::{Call, CallView, Op, Reply, ReplyView, Step, StepView, rest};
use crate::utils::{encode_name, encoded};
use vstd::prelude::*;

verus! {

/// A connected session with the storage cluster.
#[derive(Clone, Copy, Debug)]
pub struct Rados {
    /// The native cluster handle.
    pub ptr: u64,
}

impl DeepView for Rados {
    type V = Rados;

    open spec fn deep_view(&self) -> Rados {
        *self
    }
}

impl Rados {
    /// The last stage of the bring-up: connect, then hand the session out.
    pub open spec fn spec_connect(ptr: u64, replies: Seq<ReplyView>) -> StepView<Rados> {
        if replies.len() == 0 {
            StepView::Call(CallView::on(Op::Connect, ptr))
        } else if replies[0].failed() {
            StepView::Done(Err(replies[0].failure()))
        } else {
            StepView::Done(Ok(Rados { ptr }))
        }
    }

    /// How `new` stands after `replies`.
    pub open spec fn spec_new(
        conf_file: Seq<char>,
        cluster_name: Seq<char>,
        user_name: Seq<char>,
        replies: Seq<ReplyView>,
    ) -> StepView<Rados> {
        match (encoded(cluster_name), encoded(user_name)) {
            (Err(at), _) => StepView::Done(Err(ErrorView::NulError(at))),
            (Ok(_), Err(at)) => StepView::Done(Err(ErrorView::NulError(at))),
            (Ok(cluster), Ok(user)) => {
                if replies.len() == 0 {
                    StepView::Call(CallView::on(Op::Create, 0).with_key(cluster).with_name(user))
                } else if replies[0].failed() {
                    StepView::Done(Err(replies[0].failure()))
                } else if conf_file.len() == 0 {
                    Self::spec_connect(replies[0].value(0), replies.skip(1))
                } else {
                    match encoded(conf_file) {
                        Err(at) => StepView::Done(Err(ErrorView::NulError(at))),
                        Ok(path) => {
                            if replies.len() == 1 {
                                StepView::Call(
                                    CallView::on(Op::ReadConfig, replies[0].value(0)).with_key(
                                        path,
                                    ),
                                )
                            } else if replies[1].failed() {
                                if replies.len() == 2 {
                                    StepView::Call(
                                        CallView::on(Op::Shutdown, replies[0].value(0)),
                                    )
                                } else {
                                    StepView::Done(Err(replies[1].failure()))
                                }
                            } else {
                                Self::spec_connect(replies[0].value(0), replies.skip(2))
                            }
                        },
                    }
                }
            },
        }
    }

    /// The call that ends the session.
    pub fn release(&self) -> (call: Call)
        ensures
            call@ == CallView::on(Op::Shutdown, self.ptr),
    {
        Call::on(Op::Shutdown, self.ptr)
    }

    fn connect(ptr: u64, replies: &[Reply]) -> (step: Step<Rados>)
        ensures
            step.deep_view() == Self::spec_connect(ptr, replies.deep_view()),
    {
        if replies.len() == 0 {
            return Step::Call(Call::on(Op::Connect, ptr));
        }
        match replies[0].check() {
            Err(e) => Step::Done(Err(e)),
            Ok(()) => Step::Done(Ok(Rados { ptr })),
        }
    }

    /// Brings a session up: makes the cluster handle for `cluster_name` and
    /// `user_name`, reads `conf_file` into it unless that path is empty,
    /// and connects. The first call that the backend refuses ends the
    /// bring-up with the backend's error; a name with a zero byte ends it
    /// before the call that would have carried the name. Where it is the
    /// configuration file that the backend refuses, the handle is shut
    /// down before the bring-up ends.
    pub fn new(conf_file: &str, cluster_name: &str, user_name: &str, replies: &[Reply]) -> (step:
        Step<Rados>)
        ensures
            step.deep_view() == Self::spec_new(
                conf_file@,
                cluster_name@,
                user_name@,
                replies.deep_view(),
            ),
    {
        let cluster = match encode_name(cluster_name) {
            Ok(bytes) => bytes,
            Err(at) => return Step::Done(Err(Error::NulError(at))),
        };
        let user = match encode_name(user_name) {
            Ok(bytes) => bytes,
            Err(at) => return Step::Done(Err(Error::NulError(at))),
        };
        if replies.len() == 0 {
            return Step::Call(Call::on(Op::Create, 0).with_key(cluster).with_name(user));
        }
        if let Err(e) = replies[0].check() {
            return Step::Done(Err(e));
        }
        let ptr: u64 = replies[0].value(0);
        if conf_file.is_empty() {
            return Self::connect(ptr, rest(replies, 1));
        }
        let path = match encode_name(conf_file) {
            Ok(bytes) => bytes,
            Err(at) => return Step::Done(Err(Error::NulError(at))),
        };
        if replies.len() == 1 {
            return Step::Call(Call::on(Op::ReadConfig, ptr).with_key(path));
        }
        if let Err(e) = replies[1].check() {
            if replies.len() == 2 {
                return Step::Call(Call::on(Op::Shutdown, ptr));
            }
            return Step::Done(Err(e));
        }
        Self::connect(ptr, rest(replies, 2))
    }
}

} // verus!
