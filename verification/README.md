# rustot

The device side of AWS IoT Jobs and of over-the-air (OTA) firmware updates, in
Rust, with its behaviour stated and proved in Verus.

- `src/jobs/`: the job agent. It follows the jobs of a thing, reports on the
  active one, and tells its user what to do.
- `src/ota/`: the OTA agent. It fetches the file of a job from a stream, block by
  block, and hands each block to the platform once.
- `src/topic.rs`, `src/text.rs`: topic paths and the strings they are made of.
- `src/bounded.rs`: the calls into `heapless` and `ufmt`. What they do is believed,
  not proved.
- `src/jobs/laws.rs`, `src/ota/laws.rs`: what holds of the agents as a whole.
- `app/`: runs both agents against an MQTT client, a platform and a timer.

The agents in `src/` talk to no one. Each operation hands back what is to be sent,
stored or asked for, and takes the outcome in its next step.
