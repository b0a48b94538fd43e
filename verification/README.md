# lemmy_federate

Sends the activities of a server to other instances. Every instance has a worker, which sends the
activities in the order of their ids, several at a time, and remembers up to which one all have
arrived. An activity that cannot be delivered is sent again and again, with growing delays.

* `src/` is the verified library. It decides and counts, and does nothing else.
  * `manager.rs`: which instances get a worker in which process, and when they are looked at.
  * `worker.rs`, `queue.rs`, `heap.rs`: the worker of an instance, and what is on its way.
  * `send.rs`, `activity.rs`: the sending of one activity, and what it reports.
  * `time.rs`, `config.rs`: the clock and the settings.
  * `laws/`: what holds of all of these, whatever happens.
* `app/` carries out what the library decides. It needs a server that provides its database and its
  activities.
* `tests/` runs the library on examples.
