//! The client's side of a named mutex: a local copy of the shared value
//! that can be read and changed only while the lock is held.

use vstd::prelude::*;
use vstd::string::*;
use crate::client::HeimdallrClient;
use crate::networking::{
    DaemonPkt, DaemonPktTypeView, DaemonPktView, MutexCreationPkt, MutexCreationPktView,
    MutexCreationReplyPkt, MutexLockReqPkt, MutexLockReqPktView, MutexWriteAndReleasePkt,
    MutexWriteAndReleasePktView,
};

verus! {

/// A named mutex as one rank sees it.
#[derive(Debug)]
pub struct HeimdallrMutex<T> {
    pub name: String,
    pub job: String,
    pub client_id: u32,
    pub data: T,
}

/// The value of a mutex for as long as the lock is held.
pub struct HeimdallrMutexDataHandle<'a, T> {
    pub mutex: &'a mut HeimdallrMutex<T>,
}

impl<T> HeimdallrMutex<T> {
    /// The request by which `client` joins the mutex `name`, offering the
    /// serialised value `start_data` as the first it holds.
    pub fn creation_request(client: &HeimdallrClient, name: &str, start_data: Vec<u8>) -> (pkt:
        DaemonPkt)
        ensures
            pkt@ == (DaemonPktView {
                job: client.job@,
                pkt: DaemonPktTypeView::MutexCreation(
                    MutexCreationPktView {
                        name: name@,
                        client_id: client.id,
                        start_data: start_data@,
                    },
                ),
            }),
    {
        MutexCreationPkt::new(name, client.id, start_data, client.job.as_str())
    }

    /// Makes the mutex `name` of `client` out of the coordinator's
    /// confirmation of the creation request, which must be for that very
    /// name; the local copy starts as `start_value`.
    pub fn new(client: &HeimdallrClient, name: &str, start_value: T, reply: MutexCreationReplyPkt) -> (mutex:
        HeimdallrMutex<T>)
        requires
            reply.name@ == name@,
        ensures
            mutex.name@ == name@,
            mutex.job@ == client.job@,
            mutex.client_id == client.id,
            mutex.data == start_value,
    {
        HeimdallrMutex {
            name: String::from_str(name),
            job: client.job.clone(),
            client_id: client.id,
            data: start_value,
        }
    }

    /// The request by which this rank asks for the lock.
    pub fn lock_request(&self) -> (pkt: DaemonPkt)
        ensures
            pkt@ == (DaemonPktView {
                job: self.job@,
                pkt: DaemonPktTypeView::MutexLockReq(
                    MutexLockReqPktView { name: self.name@, id: self.client_id },
                ),
            }),
    {
        MutexLockReqPkt::new(self.name.as_str(), self.client_id, self.job.as_str())
    }

    /// Takes the lock: `value`, which the coordinator sent along with it,
    /// replaces the local copy, and the handle gives access to it.
    pub fn lock<'a>(&'a mut self, value: T) -> (handle: HeimdallrMutexDataHandle<'a, T>)
        ensures
            handle.mutex.data == value,
            handle.mutex.name == old(self).name,
            handle.mutex.job == old(self).job,
            handle.mutex.client_id == old(self).client_id,
            *final(self) == *final(handle.mutex),
    {
        self.data = value;
        HeimdallrMutexDataHandle::new(self)
    }

    /// The request that stores the serialised value `data` with the
    /// coordinator and gives the lock back.
    pub fn push_data(&self, data: Vec<u8>) -> (pkt: DaemonPkt)
        ensures
            pkt@ == (DaemonPktView {
                job: self.job@,
                pkt: DaemonPktTypeView::MutexWriteAndRelease(
                    MutexWriteAndReleasePktView { mutex_name: self.name@, data: data@ },
                ),
            }),
    {
        MutexWriteAndReleasePkt::new(self.name.as_str(), data, self.job.as_str())
    }
}

impl<'a, T> HeimdallrMutexDataHandle<'a, T> {
    /// The handle on the value of `mutex`.
    pub fn new(mutex: &'a mut HeimdallrMutex<T>) -> (handle: HeimdallrMutexDataHandle<'a, T>)
        ensures
            *handle.mutex == *old(mutex),
            *final(mutex) == *final(handle.mutex),
    {
        HeimdallrMutexDataHandle { mutex }
    }

    /// The value as it stands.
    pub fn get(&self) -> (value: &T)
        ensures
            *value == old(self.mutex).data,
    {
        &self.mutex.data
    }

    /// Replaces the value.
    pub fn set(&mut self, value: T)
        ensures
            final(self).mutex.data == value,
            final(self).mutex.name == old(self).mutex.name,
            final(self).mutex.job == old(self).mutex.job,
            final(self).mutex.client_id == old(self).mutex.client_id,
            *final(final(self).mutex) == *final(old(self).mutex),
    {
        self.mutex.data = value;
    }
}

} // verus!
